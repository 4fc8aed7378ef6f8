//! The texture atlas model and its line-oriented text parser.
use vstd::prelude::*;
use crate::error::{AtlasField, ImportError};
use crate::geometry::Pixels;
use crate::text::{bytes_eq, find_byte, find_in, parse_u32, spec_parse_u32, trim, trim_range};

verus! {

/// One packed rectangle of an atlas page.
#[derive(Clone, Debug, PartialEq, Eq)]
pub struct Region {
    pub name: Vec<u8>,
    /// Top-left pixel offset within the page.
    pub xy: Pixels,
    /// Packed footprint in pixels (after any rotation).
    pub size: Pixels,
    /// Original size in pixels, before trimming.
    pub orig: Pixels,
    /// Whether the region is stored rotated by 90 degrees.
    pub rotate: bool,
}

/// One atlas page and its regions, in source order.
#[derive(Clone, Debug, PartialEq, Eq)]
pub struct Atlas {
    /// File name of the page image.
    pub name: Vec<u8>,
    /// Page size in pixels.
    pub size: Pixels,
    pub regions: Vec<Region>,
}

/// What one line of atlas text is, once trimmed.
pub enum LineKind {
    Blank,
    /// A line without a colon: a page or region name.
    Header(Seq<u8>),
    /// `key: value`, both trimmed.
    Entry(Seq<u8>, Seq<u8>),
}

pub open spec fn classify(line: Seq<u8>) -> LineKind {
    let t = trim(line);
    let k = find_byte(t, 58);
    if t.len() == 0 {
        LineKind::Blank
    } else if k == t.len() {
        LineKind::Header(t)
    } else {
        LineKind::Entry(trim(t.subrange(0, k)), trim(t.subrange(k + 1, t.len() as int)))
    }
}

/// Two decimal numbers separated by a comma, blanks around each allowed.
pub open spec fn spec_parse_pair(v: Seq<u8>) -> Option<Pixels> {
    let k = find_byte(v, 44);
    if k == v.len() {
        None
    } else {
        match (
            spec_parse_u32(trim(v.subrange(0, k))),
            spec_parse_u32(trim(v.subrange(k + 1, v.len() as int))),
        ) {
            (Some(x), Some(y)) => Some(Pixels { x, y }),
            _ => None,
        }
    }
}

pub open spec fn spec_parse_bool(v: Seq<u8>) -> Option<bool> {
    if v == seq![116u8, 114, 117, 101] {
        Some(true)
    } else if v == seq![102u8, 97, 108, 115, 101] {
        Some(false)
    } else {
        None
    }
}

/// The keys that this parser reads; any other key is ignored.
#[derive(Clone, Copy, Debug, PartialEq, Eq, Structural)]
pub enum Key {
    Xy,
    Size,
    Orig,
    Rotate,
    Other,
}

pub open spec fn spec_key(k: Seq<u8>) -> Key {
    if k == seq![120u8, 121] {
        Key::Xy
    } else if k == seq![115u8, 105, 122, 101] {
        Key::Size
    } else if k == seq![111u8, 114, 105, 103] {
        Key::Orig
    } else if k == seq![114u8, 111, 116, 97, 116, 101] {
        Key::Rotate
    } else {
        Key::Other
    }
}

/// Whether `text[lo..hi]` is exactly `lit`.
fn range_is(text: &Vec<u8>, lo: usize, hi: usize, lit: &[u8]) -> (r: bool)
    requires
        lo <= hi <= text.len(),
    ensures
        r == (text@.subrange(lo as int, hi as int) == lit@),
{
    if hi - lo != lit.len() {
        return false;
    }
    let mut i: usize = 0;
    while i < lit.len()
        invariant
            lo <= hi <= text.len(),
            hi - lo == lit.len(),
            i <= lit.len(),
            forall|j: int| 0 <= j < i ==> text@[lo + j] == lit@[j],
        decreases lit.len() - i,
    {
        if text[lo + i] != lit[i] {
            assert(text@.subrange(lo as int, hi as int)[i as int] != lit@[i as int]);
            return false;
        }
        i = i + 1;
    }
    assert(text@.subrange(lo as int, hi as int) =~= lit@);
    true
}

fn key_at(text: &Vec<u8>, lo: usize, hi: usize) -> (r: Key)
    requires
        lo <= hi <= text.len(),
    ensures
        r == spec_key(text@.subrange(lo as int, hi as int)),
{
    let xy: [u8; 2] = [120, 121];
    let size: [u8; 4] = [115, 105, 122, 101];
    let orig: [u8; 4] = [111, 114, 105, 103];
    let rotate: [u8; 6] = [114, 111, 116, 97, 116, 101];
    assert(xy@ =~= seq![120u8, 121]);
    assert(size@ =~= seq![115u8, 105, 122, 101]);
    assert(orig@ =~= seq![111u8, 114, 105, 103]);
    assert(rotate@ =~= seq![114u8, 111, 116, 97, 116, 101]);
    if range_is(text, lo, hi, &xy) {
        Key::Xy
    } else if range_is(text, lo, hi, &size) {
        Key::Size
    } else if range_is(text, lo, hi, &orig) {
        Key::Orig
    } else if range_is(text, lo, hi, &rotate) {
        Key::Rotate
    } else {
        Key::Other
    }
}

/// Reads `text[lo..hi]` as `true` or `false`.
pub fn parse_bool(text: &Vec<u8>, lo: usize, hi: usize) -> (r: Option<bool>)
    requires
        lo <= hi <= text.len(),
    ensures
        r == spec_parse_bool(text@.subrange(lo as int, hi as int)),
{
    let t: [u8; 4] = [116, 114, 117, 101];
    let f: [u8; 5] = [102, 97, 108, 115, 101];
    assert(t@ =~= seq![116u8, 114, 117, 101]);
    assert(f@ =~= seq![102u8, 97, 108, 115, 101]);
    if range_is(text, lo, hi, &t) {
        Some(true)
    } else if range_is(text, lo, hi, &f) {
        Some(false)
    } else {
        None
    }
}

/// Reads `text[lo..hi]` as two comma-separated decimal numbers.
pub fn parse_pair(text: &Vec<u8>, lo: usize, hi: usize) -> (r: Option<Pixels>)
    requires
        lo <= hi <= text.len(),
    ensures
        r == spec_parse_pair(text@.subrange(lo as int, hi as int)),
{
    let ghost v = text@.subrange(lo as int, hi as int);
    let k = find_in(text, lo, hi, 44);
    if k == hi {
        return None;
    }
    assert(v.subrange(0, k - lo) =~= text@.subrange(lo as int, k as int));
    assert(v.subrange(k + 1 - lo, v.len() as int) =~= text@.subrange(k + 1, hi as int));
    let (a0, a1) = trim_range(text, lo, k);
    let (b0, b1) = trim_range(text, k + 1, hi);
    match (parse_u32(text, a0, a1), parse_u32(text, b0, b1)) {
        (Some(x), Some(y)) => Some(Pixels { x, y }),
        _ => None,
    }
}

/// A line of atlas text, as bounds into the text.
pub enum LineSpan {
    Blank,
    Header(usize, usize),
    Entry(usize, usize, usize, usize),
}

/// Classifies the line `text[lo..hi]`.
fn classify_line(text: &Vec<u8>, lo: usize, hi: usize) -> (r: LineSpan)
    requires
        lo <= hi <= text.len(),
    ensures
        match (r, classify(text@.subrange(lo as int, hi as int))) {
            (LineSpan::Blank, LineKind::Blank) => true,
            (LineSpan::Header(a, b), LineKind::Header(h)) => a <= b <= text.len()
                && text@.subrange(a as int, b as int) == h,
            (LineSpan::Entry(a, b, c, d), LineKind::Entry(k, v)) => a <= b <= text.len() && c
                <= d <= text.len() && text@.subrange(a as int, b as int) == k && text@.subrange(
                c as int,
                d as int,
            ) == v,
            _ => false,
        },
{
    let (a, b) = trim_range(text, lo, hi);
    if a == b {
        return LineSpan::Blank;
    }
    let ghost t = text@.subrange(a as int, b as int);
    let k = find_in(text, a, b, 58);
    if k == b {
        return LineSpan::Header(a, b);
    }
    assert(t.subrange(0, k - a) =~= text@.subrange(a as int, k as int));
    assert(t.subrange(k + 1 - a, t.len() as int) =~= text@.subrange(k + 1, b as int));
    let (k0, k1) = trim_range(text, a, k);
    let (v0, v1) = trim_range(text, k + 1, b);
    LineSpan::Entry(k0, k1, v0, v1)
}

/// A complete region, as a mathematical value.
pub struct RegionModel {
    pub name: Seq<u8>,
    pub xy: Pixels,
    pub size: Pixels,
    pub orig: Pixels,
    pub rotate: bool,
}

/// The region whose block is being read: its name, header line, and the
/// fields seen so far.
pub struct PendingModel {
    pub name: Seq<u8>,
    pub line: int,
    pub xy: Option<Pixels>,
    pub size: Option<Pixels>,
    pub orig: Option<Pixels>,
    pub rotate: Option<bool>,
}

/// What has been read of an atlas after some lines.
pub struct ParseModel {
    /// Page name and the line it stands on.
    pub page: Option<(Seq<u8>, int)>,
    pub page_size: Option<Pixels>,
    pub done: Seq<RegionModel>,
    pub cur: Option<PendingModel>,
}

pub struct AtlasModel {
    pub name: Seq<u8>,
    pub size: Pixels,
    pub regions: Seq<RegionModel>,
}

/// An atlas error, as a mathematical value.
pub enum AtlasErrorModel {
    Malformed(int, Seq<u8>, AtlasField),
    Duplicate(Seq<u8>),
    Other,
}

pub open spec fn error_model(e: ImportError) -> AtlasErrorModel {
    match e {
        ImportError::MalformedAtlas { line, region, field } => AtlasErrorModel::Malformed(
            line as int,
            region@,
            field,
        ),
        ImportError::DuplicateRegionName { name } => AtlasErrorModel::Duplicate(name@),
        _ => AtlasErrorModel::Other,
    }
}

pub open spec fn region_model(r: Region) -> RegionModel {
    RegionModel { name: r.name@, xy: r.xy, size: r.size, orig: r.orig, rotate: r.rotate }
}

pub open spec fn atlas_model(a: Atlas) -> AtlasModel {
    AtlasModel {
        name: a.name@,
        size: a.size,
        regions: a.regions@.map_values(|r: Region| region_model(r)),
    }
}

pub open spec fn empty_model() -> ParseModel {
    ParseModel { page: None, page_size: None, done: seq![], cur: None }
}

pub open spec fn malformed(line: int, region: Seq<u8>, field: AtlasField) -> AtlasErrorModel {
    AtlasErrorModel::Malformed(line, region, field)
}

/// Ends the pending region block, if any: it must have all four fields and
/// a name that no earlier region has.
pub open spec fn close_block(st: ParseModel) -> Result<Seq<RegionModel>, AtlasErrorModel> {
    match st.cur {
        None => Ok(st.done),
        Some(b) => if b.xy is None {
            Err(malformed(b.line, b.name, AtlasField::Xy))
        } else if b.size is None {
            Err(malformed(b.line, b.name, AtlasField::Size))
        } else if b.orig is None {
            Err(malformed(b.line, b.name, AtlasField::Orig))
        } else if b.rotate is None {
            Err(malformed(b.line, b.name, AtlasField::Rotate))
        } else if exists|i: int| 0 <= i < st.done.len() && #[trigger] st.done[i].name == b.name {
            Err(AtlasErrorModel::Duplicate(b.name))
        } else {
            Ok(
                st.done.push(
                    RegionModel {
                        name: b.name,
                        xy: b.xy->0,
                        size: b.size->0,
                        orig: b.orig->0,
                        rotate: b.rotate->0,
                    },
                ),
            )
        },
    }
}

/// Reads a `key: value` line inside the block of region `b`.
pub open spec fn region_entry(
    st: ParseModel,
    b: PendingModel,
    n: int,
    k: Seq<u8>,
    v: Seq<u8>,
) -> Result<ParseModel, AtlasErrorModel> {
    match spec_key(k) {
        Key::Xy => match spec_parse_pair(v) {
            Some(p) => Ok(ParseModel { cur: Some(PendingModel { xy: Some(p), ..b }), ..st }),
            None => Err(malformed(n, b.name, AtlasField::Xy)),
        },
        Key::Size => match spec_parse_pair(v) {
            Some(p) => Ok(ParseModel { cur: Some(PendingModel { size: Some(p), ..b }), ..st }),
            None => Err(malformed(n, b.name, AtlasField::Size)),
        },
        Key::Orig => match spec_parse_pair(v) {
            Some(p) => Ok(ParseModel { cur: Some(PendingModel { orig: Some(p), ..b }), ..st }),
            None => Err(malformed(n, b.name, AtlasField::Orig)),
        },
        Key::Rotate => match spec_parse_bool(v) {
            Some(r) => Ok(ParseModel { cur: Some(PendingModel { rotate: Some(r), ..b }), ..st }),
            None => Err(malformed(n, b.name, AtlasField::Rotate)),
        },
        Key::Other => Ok(st),
    }
}

/// Reads line number `n`. The first header names the page; `size` entries
/// before the first region give the page size; each later header opens a
/// region block, ending the previous one.
pub open spec fn step(st: ParseModel, n: int, line: Seq<u8>) -> Result<ParseModel, AtlasErrorModel> {
    match classify(line) {
        LineKind::Blank => Ok(st),
        LineKind::Header(h) => if st.page is None {
            Ok(ParseModel { page: Some((h, n)), ..st })
        } else {
            match close_block(st) {
                Err(e) => Err(e),
                Ok(done) => Ok(
                    ParseModel {
                        done,
                        cur: Some(
                            PendingModel {
                                name: h,
                                line: n,
                                xy: None,
                                size: None,
                                orig: None,
                                rotate: None,
                            },
                        ),
                        ..st
                    },
                ),
            }
        },
        LineKind::Entry(k, v) => match st.cur {
            Some(b) => region_entry(st, b, n, k, v),
            None => if st.page is None {
                Err(malformed(n, seq![], AtlasField::PageName))
            } else if spec_key(k) == Key::Size {
                match spec_parse_pair(v) {
                    Some(p) => Ok(ParseModel { page_size: Some(p), ..st }),
                    None => Err(malformed(n, seq![], AtlasField::PageSize)),
                }
            } else {
                Ok(st)
            },
        },
    }
}

/// The end of the line that starts at `i`: the next newline, or the end.
pub open spec fn line_end(s: Seq<u8>, i: int) -> int
    decreases s.len() - i,
{
    if i >= s.len() {
        s.len() as int
    } else if s[i] == 10 {
        i
    } else {
        line_end(s, i + 1)
    }
}

/// Reads the lines of `s` from offset `pos` on, the first of them numbered `n`.
pub open spec fn run(s: Seq<u8>, pos: int, n: int, st: ParseModel) -> Result<ParseModel, AtlasErrorModel>
    decreases s.len() + 1 - pos,
{
    if pos < 0 || pos > s.len() {
        Ok(st)
    } else {
        let e = line_end(s, pos);
        if e < pos || e > s.len() {
            Ok(st)
        } else {
            match step(st, n, s.subrange(pos, e)) {
                Err(err) => Err(err),
                Ok(next) => run(s, e + 1, n + 1, next),
            }
        }
    }
}

/// The end of input: the page must have a name and a size, and the last
/// region block is ended.
pub open spec fn finish(st: ParseModel) -> Result<AtlasModel, AtlasErrorModel> {
    match st.page {
        None => Err(malformed(1, seq![], AtlasField::PageName)),
        Some((name, line)) => match st.page_size {
            None => Err(malformed(line, seq![], AtlasField::PageSize)),
            Some(size) => match close_block(st) {
                Err(e) => Err(e),
                Ok(regions) => Ok(AtlasModel { name, size, regions }),
            },
        },
    }
}

/// The atlas that the text `s` describes, or the error it raises. Lines are
/// numbered from 1.
pub open spec fn spec_parse_atlas(s: Seq<u8>) -> Result<AtlasModel, AtlasErrorModel> {
    match run(s, 0, 1, empty_model()) {
        Err(e) => Err(e),
        Ok(st) => finish(st),
    }
}

/// No two regions share a name.
pub open spec fn region_names_distinct(rs: Seq<RegionModel>) -> bool {
    forall|i: int, j: int| 0 <= i < j < rs.len() ==> rs[i].name != rs[j].name
}

proof fn lemma_close_keeps_distinct(st: ParseModel)
    requires
        region_names_distinct(st.done),
    ensures
        close_block(st) matches Ok(done) ==> region_names_distinct(done),
{
    if let Some(b) = st.cur {
        if close_block(st) is Ok {
            let done = close_block(st)->Ok_0;
            assert forall|i: int, j: int| 0 <= i < j < done.len() implies done[i].name
                != done[j].name by {
                if j == st.done.len() {
                    assert(st.done[i].name != b.name);
                }
            }
        }
    }
}

proof fn lemma_step_keeps_distinct(st: ParseModel, n: int, line: Seq<u8>)
    requires
        region_names_distinct(st.done),
    ensures
        step(st, n, line) matches Ok(next) ==> region_names_distinct(next.done),
{
    lemma_close_keeps_distinct(st);
}

proof fn lemma_run_keeps_distinct(s: Seq<u8>, pos: int, n: int, st: ParseModel)
    requires
        region_names_distinct(st.done),
    ensures
        run(s, pos, n, st) matches Ok(end) ==> region_names_distinct(end.done),
    decreases s.len() + 1 - pos,
{
    if 0 <= pos <= s.len() {
        let e = line_end(s, pos);
        if pos <= e <= s.len() {
            lemma_step_keeps_distinct(st, n, s.subrange(pos, e));
            if let Ok(next) = step(st, n, s.subrange(pos, e)) {
                lemma_run_keeps_distinct(s, e + 1, n + 1, next);
            }
        }
    }
}

/// Every atlas that the parser accepts has pairwise distinct region names:
/// a repeated name is always an error, never a silent replacement.
pub proof fn lemma_parsed_region_names_distinct(s: Seq<u8>)
    ensures
        spec_parse_atlas(s) matches Ok(m) ==> region_names_distinct(m.regions),
{
    lemma_run_keeps_distinct(s, 0, 1, empty_model());
    if let Ok(st) = run(s, 0, 1, empty_model()) {
        lemma_close_keeps_distinct(st);
    }
}

/// A region block being read.
struct Pending {
    name: Vec<u8>,
    line: usize,
    xy: Option<Pixels>,
    size: Option<Pixels>,
    orig: Option<Pixels>,
    rotate: Option<bool>,
}

/// The state of the reader between lines.
struct AtlasReader {
    page: Option<(Vec<u8>, usize)>,
    page_size: Option<Pixels>,
    done: Vec<Region>,
    cur: Option<Pending>,
}

spec fn pending_model(b: Pending) -> PendingModel {
    PendingModel {
        name: b.name@,
        line: b.line as int,
        xy: b.xy,
        size: b.size,
        orig: b.orig,
        rotate: b.rotate,
    }
}

impl AtlasReader {
    spec fn model(&self) -> ParseModel {
        ParseModel {
            page: match self.page {
                Some((v, l)) => Some((v@, l as int)),
                None => None,
            },
            page_size: self.page_size,
            done: self.done@.map_values(|r: Region| region_model(r)),
            cur: match self.cur {
                Some(b) => Some(pending_model(b)),
                None => None,
            },
        }
    }

    fn close_block(&mut self) -> (r: Result<(), ImportError>)
        ensures
            match close_block(old(self).model()) {
                Ok(done) => r is Ok && final(self).model() == (ParseModel {
                    done,
                    cur: None,
                    ..old(self).model()
                }),
                Err(e) => r matches Err(x) && error_model(x) == e,
            },
    {
        let cur = self.cur.take();
        let b = match cur {
            None => {
                return Ok(());
            },
            Some(b) => b,
        };
        let xy = match b.xy {
            Some(v) => v,
            None => {
                return Err(ImportError::MalformedAtlas { line: b.line, region: b.name, field: AtlasField::Xy });
            },
        };
        let size = match b.size {
            Some(v) => v,
            None => {
                return Err(ImportError::MalformedAtlas { line: b.line, region: b.name, field: AtlasField::Size });
            },
        };
        let orig = match b.orig {
            Some(v) => v,
            None => {
                return Err(ImportError::MalformedAtlas { line: b.line, region: b.name, field: AtlasField::Orig });
            },
        };
        let rotate = match b.rotate {
            Some(v) => v,
            None => {
                return Err(ImportError::MalformedAtlas { line: b.line, region: b.name, field: AtlasField::Rotate });
            },
        };
        let ghost done = self.done@.map_values(|r: Region| region_model(r));
        assert(old(self).model().cur == Some(pending_model(b)));
        let mut i: usize = 0;
        while i < self.done.len()
            invariant
                i <= self.done.len(),
                done == self.done@.map_values(|r: Region| region_model(r)),
                done == old(self).model().done,
                old(self).model().cur == Some(pending_model(b)),
                b.xy == Some(xy) && b.size == Some(size),
                b.orig == Some(orig) && b.rotate == Some(rotate),
                forall|j: int| 0 <= j < i ==> done[j].name != b.name@,
            decreases self.done.len() - i,
        {
            if bytes_eq(&self.done[i].name, &b.name) {
                assert(done[i as int].name == b.name@);
                return Err(ImportError::DuplicateRegionName { name: b.name });
            }
            i = i + 1;
        }
        self.done.push(Region { name: b.name, xy, size, orig, rotate });
        assert(self.done@.map_values(|r: Region| region_model(r)) =~= done.push(
            RegionModel { name: b.name@, xy, size, orig, rotate },
        ));
        Ok(())
    }

    /// Reads the line `text[lo..hi]`, numbered `n`.
    fn step(&mut self, text: &Vec<u8>, lo: usize, hi: usize, n: usize) -> (r: Result<(), ImportError>)
        requires
            lo <= hi <= text.len(),
        ensures
            match step(old(self).model(), n as int, text@.subrange(lo as int, hi as int)) {
                Ok(st) => r is Ok && final(self).model() == st,
                Err(e) => r matches Err(x) && error_model(x) == e,
            },
    {
        match classify_line(text, lo, hi) {
            LineSpan::Blank => Ok(()),
            LineSpan::Header(a, b) => {
                let name = copy_range(text, a, b);
                if self.page.is_none() {
                    self.page = Some((name, n));
                    return Ok(());
                }
                match self.close_block() {
                    Err(e) => Err(e),
                    Ok(()) => {
                        self.cur = Some(
                            Pending { name, line: n, xy: None, size: None, orig: None, rotate: None },
                        );
                        Ok(())
                    },
                }
            },
            LineSpan::Entry(k0, k1, v0, v1) => {
                let key = key_at(text, k0, k1);
                if self.cur.is_some() {
                    let mut b = self.cur.take().unwrap();
                    match key {
                        Key::Xy => match parse_pair(text, v0, v1) {
                            Some(p) => b.xy = Some(p),
                            None => {
                                return Err(ImportError::MalformedAtlas { line: n, region: b.name, field: AtlasField::Xy });
                            },
                        },
                        Key::Size => match parse_pair(text, v0, v1) {
                            Some(p) => b.size = Some(p),
                            None => {
                                return Err(ImportError::MalformedAtlas { line: n, region: b.name, field: AtlasField::Size });
                            },
                        },
                        Key::Orig => match parse_pair(text, v0, v1) {
                            Some(p) => b.orig = Some(p),
                            None => {
                                return Err(ImportError::MalformedAtlas { line: n, region: b.name, field: AtlasField::Orig });
                            },
                        },
                        Key::Rotate => match parse_bool(text, v0, v1) {
                            Some(v) => b.rotate = Some(v),
                            None => {
                                return Err(ImportError::MalformedAtlas { line: n, region: b.name, field: AtlasField::Rotate });
                            },
                        },
                        Key::Other => {},
                    }
                    self.cur = Some(b);
                    Ok(())
                } else if self.page.is_none() {
                    Err(ImportError::MalformedAtlas { line: n, region: Vec::new(), field: AtlasField::PageName })
                } else if key == Key::Size {
                    match parse_pair(text, v0, v1) {
                        Some(p) => {
                            self.page_size = Some(p);
                            Ok(())
                        },
                        None => Err(ImportError::MalformedAtlas { line: n, region: Vec::new(), field: AtlasField::PageSize }),
                    }
                } else {
                    Ok(())
                }
            },
        }
    }

    fn finish(self) -> (r: Result<Atlas, ImportError>)
        ensures
            match finish(self.model()) {
                Ok(m) => r matches Ok(a) && atlas_model(a) == m,
                Err(e) => r matches Err(x) && error_model(x) == e,
            },
    {
        let mut this = self;
        let (name, line) = match this.page.take() {
            None => {
                return Err(ImportError::MalformedAtlas { line: 1, region: Vec::new(), field: AtlasField::PageName });
            },
            Some(p) => p,
        };
        let size = match this.page_size {
            None => {
                return Err(ImportError::MalformedAtlas { line, region: Vec::new(), field: AtlasField::PageSize });
            },
            Some(s) => s,
        };
        match this.close_block() {
            Err(e) => Err(e),
            Ok(()) => Ok(Atlas { name, size, regions: this.done }),
        }
    }
}

/// A copy of `text[lo..hi]`.
fn copy_range(text: &Vec<u8>, lo: usize, hi: usize) -> (r: Vec<u8>)
    requires
        lo <= hi <= text.len(),
    ensures
        r@ == text@.subrange(lo as int, hi as int),
{
    let mut r: Vec<u8> = Vec::new();
    let mut i: usize = lo;
    while i < hi
        invariant
            lo <= i <= hi <= text.len(),
            r@ == text@.subrange(lo as int, i as int),
        decreases hi - i,
    {
        r.push(text[i]);
        i = i + 1;
        assert(r@ =~= text@.subrange(lo as int, i as int));
    }
    r
}

proof fn lemma_line_end(s: Seq<u8>, i: int)
    requires
        0 <= i <= s.len(),
    ensures
        line_end(s, i) == i + find_byte(s.subrange(i, s.len() as int), 10),
        i <= line_end(s, i) <= s.len(),
    decreases s.len() - i,
{
    if i < s.len() && s[i] != 10 {
        lemma_line_end(s, i + 1);
        assert(s.subrange(i, s.len() as int).drop_first() =~= s.subrange(i + 1, s.len() as int));
    }
}

/// Parses atlas text: a page block (its image name, then `key: value` lines
/// of which only `size` is read) followed by region blocks (a name, then
/// `key: value` lines of which `xy`, `size`, `orig` and `rotate` are read and
/// all four required). Blank lines are skipped, unknown keys ignored, and a
/// repeated region name is an error.
pub fn parse_atlas(text: &Vec<u8>) -> (r: Result<Atlas, ImportError>)
    requires
        text.len() < usize::MAX - 1,
    ensures
        match spec_parse_atlas(text@) {
            Ok(m) => r matches Ok(a) && atlas_model(a) == m,
            Err(e) => r matches Err(x) && error_model(x) == e,
        },
{
    let mut reader = AtlasReader { page: None, page_size: None, done: Vec::new(), cur: None };
    assert(reader.model().done =~= seq![]);
    let mut pos: usize = 0;
    let mut n: usize = 1;
    while pos <= text.len()
        invariant
            pos <= text.len() + 1,
            n <= pos + 1,
            text.len() < usize::MAX - 1,
            run(text@, 0, 1, empty_model()) == run(text@, pos as int, n as int, reader.model()),
        decreases text.len() + 1 - pos,
    {
        let e = find_in(text, pos, text.len(), 10);
        proof {
            lemma_line_end(text@, pos as int);
        }
        match reader.step(text, pos, e, n) {
            Err(x) => {
                return Err(x);
            },
            Ok(()) => {},
        }
        pos = e + 1;
        n = n + 1;
    }
    reader.finish()
}

} // verus!
