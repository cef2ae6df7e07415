//! The extraction pass: walks one Document View, finds the page description
//! under its fixed structural path, maps every audio-link element to a talk
//! record in document order, and assembles the catalog. Any single record
//! failing to parse aborts the whole extraction; zero audio links is not an
//! error.
use vstd::prelude::*;
use vstd::string::StrSliceExecFns;

use crate::dates::{
    date_err_of_path, date_error_message, date_of_path, date_parse_ok, get_date, DateError,
    TalkDateTime,
};
use crate::dom::{
    collect_hits_from, elem_texts, find_from, opt_view, spec_elem_texts, spec_find_from,
    spec_hits_from, Doc, Elem, ElemQuery, MarkupNode,
};

verus! {

/// One catalog entry: the inferred broadcast date, the talk's title, the
/// relative path of its audio file, and the relative path of a transcript
/// when the page offers one.
#[derive(Clone, Debug, PartialEq, Eq)]
pub struct Talk {
    pub date: TalkDateTime,
    pub title: String,
    /// relative URL to the audio file
    pub mp3: String,
    /// relative URL to the transcript document
    pub transcript: Option<String>,
}

/// The whole catalog drawn from one page: its description and its talks in
/// document order.
#[derive(Clone, Debug, PartialEq, Eq)]
pub struct TalkInfo {
    pub description: String,
    pub talks: Vec<Talk>,
}

/// Why an extraction failed.
#[derive(Clone, Debug, PartialEq, Eq)]
pub enum ScrapeError {
    /// The description was absent from its structural path, or empty.
    MissingDescription,
    /// An audio-link element carried no target reference.
    MissingMp3,
    /// An audio-link element had no title text after its leading date label.
    MissingTitle,
    /// The audio path named here failed date inference as the inner error says.
    BadDate { mp3: String, err: DateError },
}

/// The Unicode whitespace characters, as `char::is_whitespace` knows them.
pub open spec fn is_ws(c: char) -> bool {
    ||| c == ' '
    ||| c == '\t'
    ||| c == '\n'
    ||| (c as int) == 0xB
    ||| (c as int) == 0xC
    ||| c == '\r'
    ||| (c as int) == 0x85
    ||| (c as int) == 0xA0
    ||| (c as int) == 0x1680
    ||| (0x2000 <= (c as int) && (c as int) <= 0x200A)
    ||| (c as int) == 0x2028
    ||| (c as int) == 0x2029
    ||| (c as int) == 0x202F
    ||| (c as int) == 0x205F
    ||| (c as int) == 0x3000
}

pub open spec fn trim_start_of(s: Seq<char>) -> Seq<char>
    decreases s.len(),
{
    if s.len() == 0 {
        s
    } else if is_ws(s[0]) {
        trim_start_of(s.drop_first())
    } else {
        s
    }
}

pub open spec fn trim_end_of(s: Seq<char>) -> Seq<char>
    decreases s.len(),
{
    if s.len() == 0 {
        s
    } else if is_ws(s.last()) {
        trim_end_of(s.drop_last())
    } else {
        s
    }
}

/// `s` with its leading and trailing whitespace removed.
pub open spec fn trim_of(s: Seq<char>) -> Seq<char> {
    trim_end_of(trim_start_of(s))
}

fn ws(c: char) -> (r: bool)
    ensures
        r == is_ws(c),
{
    let u = c as u32;
    u == 0x20 || u == 0x9 || u == 0xA || u == 0xB || u == 0xC || u == 0xD || u == 0x85
        || u == 0xA0 || u == 0x1680 || (0x2000 <= u && u <= 0x200A) || u == 0x2028 || u == 0x2029
        || u == 0x202F || u == 0x205F || u == 0x3000
}

/// A copy of `s` with surrounding whitespace removed.
pub fn trim_string(s: &String) -> (r: String)
    ensures
        r@ == trim_of(s@),
{
    let st = s.as_str();
    let n = st.unicode_len();
    proof {
        assert(s@.subrange(0, n as int) =~= s@);
    }
    let mut a: usize = 0;
    while a < n && ws(st.get_char(a))
        invariant
            0 <= a <= n,
            n == st@.len(),
            st@ == s@,
            trim_start_of(s@) == trim_start_of(s@.subrange(a as int, n as int)),
        decreases n - a,
    {
        proof {
            let sub = s@.subrange(a as int, n as int);
            assert(sub[0] == s@[a as int]);
            assert(sub.drop_first() =~= s@.subrange(a + 1, n as int));
        }
        a = a + 1;
    }
    proof {
        assert(s@.subrange(0, n as int) =~= s@);
        assert(trim_start_of(s@) == s@.subrange(a as int, n as int));
    }
    let mut b: usize = n;
    while b > a && ws(st.get_char(b - 1))
        invariant
            a <= b <= n,
            n == st@.len(),
            st@ == s@,
            trim_start_of(s@) == s@.subrange(a as int, n as int),
            trim_end_of(s@.subrange(a as int, n as int)) == trim_end_of(
                s@.subrange(a as int, b as int),
            ),
        decreases b,
    {
        proof {
            let sub = s@.subrange(a as int, b as int);
            assert(sub.last() == s@[b - 1]);
            assert(sub.drop_last() =~= s@.subrange(a as int, b - 1));
        }
        b = b - 1;
    }
    proof {
        assert(trim_of(s@) == s@.subrange(a as int, b as int));
    }
    let out = st.substring_char(a, b);
    out.to_owned()
}

/// The audio-link predicate: an anchor element carrying the audio marker
/// class.
pub open spec fn audio_query_hits(doc: Doc) -> Seq<(Elem, Option<MarkupNode>)> {
    spec_hits_from(doc.roots@, 0, "a"@, None, Some("audio"@))
}

/// The target reference of a following-sibling node, when that sibling is
/// itself an element and carries one.
pub open spec fn sib_href(sib: Option<MarkupNode>) -> Option<Seq<char>> {
    match sib {
        Some(MarkupNode::Element(se)) => match se.href {
            Some(h) => Some(h@),
            None => None,
        },
        _ => None,
    }
}

/// Whether one audio-link element yields a talk record: it has a target
/// reference, a non-empty second text fragment once trimmed, and a path
/// that date inference accepts.
pub open spec fn hit_ok(e: Elem) -> bool {
    &&& e.href is Some
    &&& spec_elem_texts(e).len() >= 2
    &&& trim_of(spec_elem_texts(e)[1]).len() > 0
    &&& date_parse_ok(e.href->0@)
}

/// What a talk record drawn from one audio-link element holds: the element's
/// target reference, its trimmed second text fragment (the first is the
/// leading date label), the date inferred from the reference, and the
/// following sibling's reference as transcript when there is one.
pub open spec fn talk_matches_hit(t: Talk, e: Elem, sib: Option<MarkupNode>) -> bool {
    &&& t.mp3@ == e.href->0@
    &&& t.title@ == trim_of(spec_elem_texts(e)[1])
    &&& t.date == date_of_path(e.href->0@)
    &&& (match sib_href(sib) {
        Some(h) => t.transcript is Some && t.transcript->0@ == h,
        None => t.transcript is None,
    })
}

/// The error a failing audio-link element yields, checked in order: the
/// target reference first, the title next, date inference last.
pub open spec fn err_matches_hit(err: ScrapeError, e: Elem) -> bool {
    if e.href is None {
        err is MissingMp3
    } else if !(spec_elem_texts(e).len() >= 2 && trim_of(spec_elem_texts(e)[1]).len() > 0) {
        err is MissingTitle
    } else {
        err matches ScrapeError::BadDate { mp3, err: de } && mp3@ == e.href->0@ && de
            == date_err_of_path(e.href->0@)
    }
}

/// Derives one talk record from one audio-link element and the node
/// immediately following it as a sibling.
pub fn parse_talk(el: &Elem, sib: Option<&MarkupNode>) -> (r: Result<Talk, ScrapeError>)
    ensures
        ({
            let sibv = match sib {
                Some(s) => Some(*s),
                None => None,
            };
            match r {
                Ok(t) => hit_ok(*el) && talk_matches_hit(t, *el, sibv),
                Err(e) => !hit_ok(*el) && err_matches_hit(e, *el),
            }
        }),
{
    let mp3: String = match &el.href {
        Some(h) => h.clone(),
        None => {
            return Err(ScrapeError::MissingMp3);
        },
    };
    let texts = elem_texts(el);
    if texts.len() < 2 {
        return Err(ScrapeError::MissingTitle);
    }
    let title = trim_string(&texts[1]);
    if title.as_str().is_empty() {
        return Err(ScrapeError::MissingTitle);
    }
    let date = match get_date(mp3.as_str()) {
        Ok(d) => d,
        Err(de) => {
            return Err(ScrapeError::BadDate { mp3, err: de });
        },
    };
    let transcript: Option<String> = match sib {
        Some(n) => match n {
            MarkupNode::Element(se) => match &se.href {
                Some(h) => Some(h.clone()),
                None => None,
            },
            MarkupNode::Text(_) => None,
        },
        None => None,
    };
    Ok(Talk { date, title, mp3, transcript })
}

fn audio_query() -> (q: ElemQuery)
    ensures
        q.tag@ == "a"@,
        q.id is None,
        opt_view(q.class) == Some("audio"@),
{
    ElemQuery { tag: "a".to_owned(), id: None, class: Some("audio".to_owned()) }
}

/// Maps every audio-link element of the page, in document order, to a talk
/// record; the first element that fails aborts the whole pass with its error.
pub fn get_talks(doc: &Doc) -> (r: Result<Vec<Talk>, ScrapeError>)
    ensures
        ({
            let hits = audio_query_hits(*doc);
            match r {
                Ok(talks) => {
                    &&& talks@.len() == hits.len()
                    &&& forall|i: int| 0 <= i < hits.len() ==> hit_ok(#[trigger] hits[i].0)
                    &&& forall|i: int|
                        0 <= i < hits.len() ==> talk_matches_hit(
                            talks@[i],
                            #[trigger] hits[i].0,
                            hits[i].1,
                        )
                },
                Err(e) => exists|i: int|
                    {
                        &&& 0 <= i < hits.len()
                        &&& !hit_ok(#[trigger] hits[i].0)
                        &&& forall|j: int| 0 <= j < i ==> hit_ok(#[trigger] hits[j].0)
                        &&& err_matches_hit(e, hits[i].0)
                    },
            }
        }),
{
    let q = audio_query();
    let mut found: Vec<(&Elem, Option<&MarkupNode>)> = Vec::new();
    collect_hits_from(&doc.roots, 0, &q, &mut found);
    let ghost hits = audio_query_hits(*doc);
    let mut talks: Vec<Talk> = Vec::new();
    let mut i: usize = 0;
    while i < found.len()
        invariant
            i <= found@.len(),
            hits == audio_query_hits(*doc),
            found@.len() == hits.len(),
            forall|k: int|
                0 <= k < found@.len() ==> (*found@[k].0, match found@[k].1 {
                    Some(s) => Some(*s),
                    None => None,
                }) == hits[k],
            talks@.len() == i,
            forall|k: int| 0 <= k < i ==> hit_ok(#[trigger] hits[k].0),
            forall|k: int|
                0 <= k < i ==> talk_matches_hit(talks@[k], #[trigger] hits[k].0, hits[k].1),
        decreases found@.len() - i,
    {
        let pair = found[i];
        match parse_talk(pair.0, pair.1) {
            Ok(t) => {
                talks.push(t);
            },
            Err(e) => {
                assert(!hit_ok(hits[i as int].0) && err_matches_hit(e, hits[i as int].0));
                return Err(e);
            },
        }
        i = i + 1;
    }
    Ok(talks)
}

/// The description found by descending the fixed structural path: the
/// content container, then the archive container, then the full-description
/// leaf, whose first text fragment is the description.
pub open spec fn spec_description(doc: Doc) -> Option<Seq<char>> {
    match spec_find_from(doc.roots@, 0, "div"@, Some("content"@), None) {
        None => None,
        Some(c) => match spec_find_from(c.children@, 0, "div"@, None, Some("archive"@)) {
            None => None,
            Some(a) => match spec_find_from(a.children@, 0, "div"@, None, Some("full"@)) {
                None => None,
                Some(f) => {
                    let ts = spec_elem_texts(f);
                    if ts.len() == 0 {
                        None
                    } else {
                        Some(ts[0])
                    }
                },
            },
        },
    }
}

/// Walks the fixed structural path to the page's description and returns its
/// first text fragment, or nothing when any step of the path has no match.
pub fn get_description(doc: &Doc) -> (r: Option<String>)
    ensures
        match r {
            Some(s) => spec_description(*doc) == Some(s@),
            None => spec_description(*doc) is None,
        },
{
    let qc = ElemQuery { tag: "div".to_owned(), id: Some("content".to_owned()), class: None };
    let c = match find_from(&doc.roots, 0, &qc) {
        Some(e) => e,
        None => {
            return None;
        },
    };
    let qa = ElemQuery { tag: "div".to_owned(), id: None, class: Some("archive".to_owned()) };
    let a = match find_from(&c.children, 0, &qa) {
        Some(e) => e,
        None => {
            return None;
        },
    };
    let qf = ElemQuery { tag: "div".to_owned(), id: None, class: Some("full".to_owned()) };
    let f = match find_from(&a.children, 0, &qf) {
        Some(e) => e,
        None => {
            return None;
        },
    };
    let texts = elem_texts(f);
    if texts.len() == 0 {
        None
    } else {
        Some(texts[0].clone())
    }
}

/// What a successful extraction holds: the page's non-empty description, and
/// one talk per audio-link element, in document order, each as
/// `talk_matches_hit` pins it.
pub open spec fn catalog_matches(doc: Doc, info: TalkInfo) -> bool {
    let hits = audio_query_hits(doc);
    &&& spec_description(doc) is Some
    &&& spec_description(doc)->0.len() > 0
    &&& info.description@ == spec_description(doc)->0
    &&& info.talks@.len() == hits.len()
    &&& forall|i: int| 0 <= i < hits.len() ==> hit_ok(#[trigger] hits[i].0)
    &&& forall|i: int|
        0 <= i < hits.len() ==> talk_matches_hit(info.talks@[i], #[trigger] hits[i].0, hits[i].1)
}

/// When and how extraction fails: a missing or empty description comes
/// first; otherwise the first failing audio-link element names the error.
pub open spec fn extraction_fails_with(doc: Doc, e: ScrapeError) -> bool {
    let hits = audio_query_hits(doc);
    if !(spec_description(doc) is Some && spec_description(doc)->0.len() > 0) {
        e is MissingDescription
    } else {
        exists|i: int|
            {
                &&& 0 <= i < hits.len()
                &&& !hit_ok(#[trigger] hits[i].0)
                &&& forall|j: int| 0 <= j < i ==> hit_ok(#[trigger] hits[j].0)
                &&& err_matches_hit(e, hits[i].0)
            }
    }
}

impl TalkInfo {
    /// Assembles the catalog from one Document View: the description and the
    /// talks, failing as `extraction_fails_with` says when either part does.
    pub fn from_archive(document: &Doc) -> (r: Result<TalkInfo, ScrapeError>)
        ensures
            match r {
                Ok(info) => catalog_matches(*document, info),
                Err(e) => extraction_fails_with(*document, e),
            },
    {
        let description = match get_description(document) {
            Some(d) => d,
            None => {
                return Err(ScrapeError::MissingDescription);
            },
        };
        if description.as_str().is_empty() {
            return Err(ScrapeError::MissingDescription);
        }
        let talks = match get_talks(document) {
            Ok(t) => t,
            Err(e) => {
                return Err(e);
            },
        };
        Ok(TalkInfo { description, talks })
    }
}


/// The wording of each extraction error: a date error names the offending
/// audio path and carries the date-inference wording after it.
pub open spec fn scrape_error_message(e: ScrapeError) -> Seq<char> {
    match e {
        ScrapeError::MissingDescription => "couldn't find description"@,
        ScrapeError::MissingMp3 => "missing link to talk mp3"@,
        ScrapeError::MissingTitle => "no talk title after date text node"@,
        ScrapeError::BadDate { mp3, err } => "getting date from \""@ + mp3@ + "\": "@
            + date_error_message(err),
    }
}

impl ScrapeError {
    /// The error's wording, for reporting.
    pub fn message(&self) -> (r: String)
        ensures
            r@ == scrape_error_message(*self),
    {
        match self {
            ScrapeError::MissingDescription => String::from_str("couldn't find description"),
            ScrapeError::MissingMp3 => String::from_str("missing link to talk mp3"),
            ScrapeError::MissingTitle => String::from_str("no talk title after date text node"),
            ScrapeError::BadDate { mp3, err } => {
                let mut m = String::from_str("getting date from \"");
                m.append(mp3.as_str());
                m.append("\": ");
                let inner = err.message();
                m.append(inner.as_str());
                assert(m@ =~= scrape_error_message(*self));
                m
            },
        }
    }
}

/// Field-for-field agreement of two talk records.
pub open spec fn talk_view_eq(a: Talk, b: Talk) -> bool {
    &&& a.date == b.date
    &&& a.title@ == b.title@
    &&& a.mp3@ == b.mp3@
    &&& opt_view(a.transcript) == opt_view(b.transcript)
}

/// Extraction is deterministic and idempotent: any two catalogs drawn from
/// the same Document View agree field for field.
pub proof fn lemma_extraction_deterministic(doc: Doc, r1: TalkInfo, r2: TalkInfo)
    requires
        catalog_matches(doc, r1),
        catalog_matches(doc, r2),
    ensures
        r1.description@ == r2.description@,
        r1.talks@.len() == r2.talks@.len(),
        forall|i: int| 0 <= i < r1.talks@.len() ==> talk_view_eq(r1.talks@[i], r2.talks@[i]),
{
    let hits = audio_query_hits(doc);
    assert forall|i: int| 0 <= i < r1.talks@.len() implies talk_view_eq(
        r1.talks@[i],
        r2.talks@[i],
    ) by {
        assert(talk_matches_hit(r1.talks@[i], hits[i].0, hits[i].1));
        assert(talk_matches_hit(r2.talks@[i], hits[i].0, hits[i].1));
    }
}

/// Talk ordering matches the document order of the audio-link elements: the
/// catalog has one talk per audio link, and the i-th talk's audio path is
/// the i-th audio link's target reference.
pub proof fn lemma_talk_order(doc: Doc, info: TalkInfo)
    requires
        catalog_matches(doc, info),
    ensures
        info.talks@.len() == audio_query_hits(doc).len(),
        forall|i: int|
            0 <= i < info.talks@.len() ==> info.talks@[i].mp3@ == (
            #[trigger] audio_query_hits(doc)[i]).0.href->0@,
{
    let hits = audio_query_hits(doc);
    assert forall|i: int| 0 <= i < info.talks@.len() implies info.talks@[i].mp3@
        == hits[i].0.href->0@ by {
        assert(talk_matches_hit(info.talks@[i], hits[i].0, hits[i].1));
    }
}

/// Catalog invariants: a successful extraction has a non-empty description,
/// and every talk has a non-empty audio path, a non-empty title, and a date
/// derived deterministically from that path alone.
pub proof fn lemma_catalog_invariants(doc: Doc, info: TalkInfo)
    requires
        catalog_matches(doc, info),
    ensures
        info.description@.len() > 0,
        forall|i: int| 0 <= i < info.talks@.len() ==> (#[trigger] info.talks@[i]).mp3@.len() > 0,
        forall|i: int| 0 <= i < info.talks@.len() ==> (#[trigger] info.talks@[i]).title@.len() > 0,
        forall|i: int|
            0 <= i < info.talks@.len() ==> (#[trigger] info.talks@[i]).date == date_of_path(
                info.talks@[i].mp3@,
            ),
{
    let hits = audio_query_hits(doc);
    assert forall|i: int| 0 <= i < info.talks@.len() implies (#[trigger] info.talks@[i]).mp3@.len()
        > 0 && info.talks@[i].title@.len() > 0 && info.talks@[i].date == date_of_path(
        info.talks@[i].mp3@,
    ) by {
        assert(hit_ok(hits[i].0));
        assert(talk_matches_hit(info.talks@[i], hits[i].0, hits[i].1));
        let p = info.talks@[i].mp3@;
        if p.len() == 0 {
            assert(crate::dates::split_slash(p).len() == 1);
            assert(false);
        }
    }
}

} // verus!
