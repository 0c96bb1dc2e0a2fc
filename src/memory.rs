//! The policies of the fact store: documents and their scores, the next free
//! id, which search hits ground an answer, and how a full listing is paged in.
use vstd::prelude::*;
use vstd::string::*;

verus! {

/// A stored fact. `score_bits` holds the IEEE 754 binary32 encoding of the
/// similarity score that a search gave it; a listing leaves it at `0.0`.
#[derive(Clone, Debug, PartialEq, Eq)]
pub struct Document {
    pub id: i32,
    pub text: String,
    pub score_bits: u32,
}

pub struct DocumentView {
    pub id: i32,
    pub text: Seq<char>,
    pub score_bits: u32,
}

impl View for Document {
    type V = DocumentView;

    open spec fn view(&self) -> DocumentView {
        DocumentView { id: self.id, text: self.text@, score_bits: self.score_bits }
    }
}

pub open spec fn views(ds: Seq<Document>) -> Seq<DocumentView> {
    ds.map_values(|d: Document| d@)
}

impl Document {
    pub fn new(id: i32, text: String, score_bits: u32) -> (r: Document)
        ensures
            r@ == (DocumentView { id, text: text@, score_bits }),
    {
        Document { id, text, score_bits }
    }

    /// A copy of this document.
    pub fn duplicate(&self) -> (r: Document)
        ensures
            r@ == self@,
    {
        Document { id: self.id, text: self.text.clone(), score_bits: self.score_bits }
    }
}

/// The bits of `0.6f32`: a search hit must score above it to count as relevant.
pub const RELEVANCE_BITS: u32 = 0x3F19_999A;

/// The absolute value's bits of a binary32 encoding.
pub open spec fn magnitude(b: u32) -> int {
    if b >= 0x8000_0000 {
        b - 0x8000_0000
    } else {
        b as int
    }
}

pub open spec fn is_nan(b: u32) -> bool {
    magnitude(b) > 0x7F80_0000
}

/// Binary32 values that are not NaN are ordered as their sign and magnitude
/// bits are; both zeros get `0`.
pub open spec fn ordinal(b: u32) -> int {
    if b >= 0x8000_0000 {
        -(b - 0x8000_0000)
    } else {
        b as int
    }
}

/// `a > b` on the binary32 values that the bits encode; false where either is NaN.
pub open spec fn float_above(a: u32, b: u32) -> bool {
    !is_nan(a) && !is_nan(b) && ordinal(a) > ordinal(b)
}

/// Compares two binary32 values given by their bits, as `a > b` does on `f32`.
pub fn exceeds(a: u32, b: u32) -> (r: bool)
    ensures
        r == float_above(a, b),
{
    let ma: u32 = if a >= 0x8000_0000 { a - 0x8000_0000 } else { a };
    let mb: u32 = if b >= 0x8000_0000 { b - 0x8000_0000 } else { b };
    if ma > 0x7F80_0000 || mb > 0x7F80_0000 {
        return false;
    }
    let oa: i64 = if a >= 0x8000_0000 { -(ma as i64) } else { ma as i64 };
    let ob: i64 = if b >= 0x8000_0000 { -(mb as i64) } else { mb as i64 };
    oa > ob
}

pub open spec fn is_relevant(d: DocumentView) -> bool {
    float_above(d.score_bits, RELEVANCE_BITS)
}

/// The hits that ground an answer: those scoring above the threshold, or the
/// top hit alone when none does; nothing when there are no hits.
pub open spec fn smart_selection(found: Seq<DocumentView>) -> Seq<DocumentView> {
    let relevant = found.filter(|d: DocumentView| is_relevant(d));
    if found.len() == 0 {
        Seq::empty()
    } else if relevant.len() == 0 {
        seq![found[0]]
    } else {
        relevant
    }
}

/// Picks, from search hits in descending score order, the documents that
/// ground an answer.
pub fn search_smart(found: &Vec<Document>) -> (r: Vec<Document>)
    ensures
        views(r@) == smart_selection(views(found@)),
        found@.len() > 0 ==> r@.len() > 0,
{
    let ghost all = views(found@);
    let ghost pred = |d: DocumentView| is_relevant(d);
    let mut result: Vec<Document> = Vec::new();
    let mut i: usize = 0;
    while i < found.len()
        invariant
            all == views(found@),
            pred == (|d: DocumentView| is_relevant(d)),
            i <= found@.len(),
            views(result@) == all.subrange(0, i as int).filter(pred),
        decreases found@.len() - i,
    {
        proof {
            reveal(Seq::filter);
            assert(all.subrange(0, i as int + 1).drop_last() =~= all.subrange(0, i as int));
            assert(all.subrange(0, i as int + 1).last() == found@[i as int]@);
        }
        if exceeds(found[i].score_bits, RELEVANCE_BITS) {
            let d = found[i].duplicate();
            let ghost before = result@;
            result.push(d);
            assert(views(result@) =~= views(before).push(d@));
        }
        i = i + 1;
    }
    assert(all.subrange(0, found@.len() as int) =~= all);
    if found.len() > 0 && result.len() == 0 {
        let d = found[0].duplicate();
        result.push(d);
        assert(views(result@) =~= seq![all[0]]);
    }
    result
}

/// The largest id among `docs`, or `0` when none is above `0`.
pub open spec fn largest_id(docs: Seq<DocumentView>) -> int
    decreases docs.len(),
{
    if docs.len() == 0 {
        0
    } else {
        let rest = largest_id(docs.drop_last());
        if docs.last().id > rest {
            docs.last().id as int
        } else {
            rest
        }
    }
}

/// The largest id among `docs`, or `0` when none is above `0`.
pub fn last_document_id(docs: &Vec<Document>) -> (r: i32)
    ensures
        r == largest_id(views(docs@)),
        0 <= r,
        forall|k: int| 0 <= k < docs@.len() ==> #[trigger] docs@[k].id <= r,
        r == 0 || exists|k: int| 0 <= k < docs@.len() && #[trigger] docs@[k].id == r,
{
    let mut last: i32 = 0;
    let mut i: usize = 0;
    while i < docs.len()
        invariant
            i <= docs@.len(),
            0 <= last,
            forall|k: int| 0 <= k < i ==> #[trigger] docs@[k].id <= last,
            last == 0 || exists|k: int| 0 <= k < i && #[trigger] docs@[k].id == last,
            last == largest_id(views(docs@).subrange(0, i as int)),
        decreases docs@.len() - i,
    {
        proof {
            let ds = views(docs@).subrange(0, i as int + 1);
            assert(ds.drop_last() =~= views(docs@).subrange(0, i as int));
            assert(ds.last() == docs@[i as int]@);
        }
        if docs[i].id > last {
            last = docs[i].id;
        }
        i = i + 1;
    }
    assert(views(docs@).subrange(0, docs@.len() as int) =~= views(docs@));
    last
}

/// The id a new fact gets: one past the largest id stored (ids start at `1`).
pub open spec fn next_id_after(last: int) -> Option<int> {
    if last < i32::MAX {
        Some(last + 1)
    } else {
        None
    }
}

/// The id for a new fact among `docs`; `None` when the largest id in use is
/// already `i32::MAX`.
pub fn next_document_id(docs: &Vec<Document>) -> (r: Option<i32>)
    ensures
        match r {
            Some(id) => next_id_after(largest_id(views(docs@))) == Some(id as int),
            None => next_id_after(largest_id(views(docs@))) is None,
        },
        match r {
            Some(id) => {
                &&& 1 <= id
                &&& forall|k: int| 0 <= k < docs@.len() ==> #[trigger] docs@[k].id < id
                &&& id == 1 || exists|k: int|
                    0 <= k < docs@.len() && #[trigger] docs@[k].id == id - 1
            },
            None => exists|k: int| 0 <= k < docs@.len() && #[trigger] docs@[k].id == i32::MAX,
        },
{
    let last = last_document_id(docs);
    if last == i32::MAX {
        None
    } else {
        Some(last + 1)
    }
}

/// The closest hit of a single-result search; `None` when there was none.
pub fn search_one(found: &Vec<Document>) -> (r: Option<Document>)
    ensures
        match r {
            Some(d) => found@.len() > 0 && d@ == found@[0]@,
            None => found@.len() == 0,
        },
{
    if found.len() == 0 {
        None
    } else {
        Some(found[0].duplicate())
    }
}

/// How many points one page of a listing asks for.
pub const PAGE_SIZE: u64 = 100;

/// One point of a listing page, as the store sent it: its id where it was an
/// integer, whether it carried a payload, and the payload's text where that
/// was a string.
#[derive(Debug, PartialEq, Eq)]
pub struct ScrollPoint {
    pub id: Option<i64>,
    pub has_payload: bool,
    pub text: Option<String>,
}

/// One page of a listing: whether the reply held a result at all, the points
/// of that result, and the cursor of the next page where the store gave one.
#[derive(Debug, PartialEq, Eq)]
pub struct ScrollPage {
    pub has_result: bool,
    pub points: Vec<ScrollPoint>,
    pub next_offset: Option<u64>,
}

/// What to ask the store for next: up to `limit` points, from `offset` on.
#[derive(Clone, Copy, Debug, PartialEq, Eq, Structural)]
pub struct ScrollRequest {
    pub limit: u64,
    pub offset: Option<u64>,
}

/// The document a listed point stands for: it needs an integer id and a
/// payload; the id is cut to 32 bits and a missing text reads as empty.
pub open spec fn point_document(p: ScrollPoint) -> Option<DocumentView> {
    match p.id {
        Some(id) => if p.has_payload {
            Some(
                DocumentView {
                    id: id as i32,
                    text: match p.text {
                        Some(t) => t@,
                        None => Seq::empty(),
                    },
                    score_bits: 0,
                },
            )
        } else {
            None
        },
        None => None,
    }
}

pub open spec fn page_documents(points: Seq<ScrollPoint>) -> Seq<DocumentView>
    decreases points.len(),
{
    if points.len() == 0 {
        Seq::empty()
    } else {
        let rest = page_documents(points.drop_last());
        match point_document(points.last()) {
            Some(d) => rest.push(d),
            None => rest,
        }
    }
}

/// A listing of the whole store in progress.
pub struct Scroll {
    documents: Vec<Document>,
    offset: Option<u64>,
    finished: bool,
}

pub struct ScrollView {
    pub documents: Seq<DocumentView>,
    pub offset: Option<u64>,
    pub finished: bool,
}

impl View for Scroll {
    type V = ScrollView;

    closed spec fn view(&self) -> ScrollView {
        ScrollView { documents: views(self.documents@), offset: self.offset, finished: self.finished }
    }
}

/// The listing after one more page: a reply without a result ends it; else
/// the page's documents are kept, and the listing ends when the page was
/// empty or named no next page.
pub open spec fn after_page(s: ScrollView, page: ScrollPage) -> ScrollView {
    if !page.has_result {
        ScrollView { finished: true, ..s }
    } else {
        ScrollView {
            documents: s.documents + page_documents(page.points@),
            offset: page.next_offset,
            finished: page.next_offset is None || page.points@.len() == 0,
        }
    }
}

impl Scroll {
    pub fn new() -> (r: Scroll)
        ensures
            r@ == (ScrollView { documents: Seq::empty(), offset: None, finished: false }),
    {
        let r = Scroll { documents: Vec::new(), offset: None, finished: false };
        assert(views(r.documents@) =~= Seq::empty());
        r
    }

    pub fn is_finished(&self) -> (r: bool)
        ensures
            r == self@.finished,
    {
        self.finished
    }

    /// The page to ask for next.
    pub fn request(&self) -> (r: ScrollRequest)
        ensures
            r == (ScrollRequest { limit: PAGE_SIZE, offset: self@.offset }),
    {
        ScrollRequest { limit: PAGE_SIZE, offset: self.offset }
    }

    /// Takes in the store's reply to the last request.
    pub fn absorb(&mut self, page: ScrollPage)
        requires
            !old(self)@.finished,
        ensures
            final(self)@ == after_page(old(self)@, page),
    {
        if !page.has_result {
            self.finished = true;
            return;
        }
        let ghost start = views(self.documents@);
        let n = page.points.len();
        let mut i: usize = 0;
        while i < n
            invariant
                n == page.points@.len(),
                i <= n,
                views(self.documents@) == start + page_documents(page.points@.subrange(0, i as int)),
            decreases n - i,
        {
            let point = &page.points[i];
            proof {
                let ps = page.points@.subrange(0, i as int + 1);
                assert(ps.drop_last() =~= page.points@.subrange(0, i as int));
                assert(ps.last() == page.points@[i as int]);
            }
            match point.id {
                Some(id) => {
                    if point.has_payload {
                        let text = match &point.text {
                            Some(t) => t.clone(),
                            None => String::new(),
                        };
                        let d = Document { id: #[verifier::truncate] (id as i32), text, score_bits: 0 };
                        let ghost before = self.documents@;
                        self.documents.push(d);
                        assert(views(self.documents@) =~= views(before).push(d@));
                    }
                },
                None => {},
            }
            i = i + 1;
        }
        assert(page.points@.subrange(0, n as int) =~= page.points@);
        self.offset = page.next_offset;
        self.finished = page.next_offset.is_none() || n == 0;
    }

    /// Everything listed so far.
    pub fn into_documents(self) -> (r: Vec<Document>)
        ensures
            views(r@) == self@.documents,
    {
        self.documents
    }
}

} // verus!
