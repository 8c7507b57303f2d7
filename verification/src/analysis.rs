//! Text analysis of documents and generated programs: counting shape and
//! command indicators in markup, and move statistics in rendered output.
use vstd::prelude::*;
use vstd::string::StringSliceAdditionalSpecFns;

verus! {

/// Whether `pat` occurs in `s` at position `i`.
pub open spec fn match_at(s: Seq<u8>, pat: Seq<u8>, i: int) -> bool {
    &&& 0 <= i
    &&& i + pat.len() <= s.len()
    &&& s.subrange(i, i + pat.len()) == pat
}

/// Non-overlapping occurrences of `pat` in `s` from position `i` on: a
/// match advances past itself, anything else advances by one.
pub open spec fn count_from(s: Seq<u8>, pat: Seq<u8>, i: int) -> nat
    decreases s.len() - i,
{
    if pat.len() == 0 || i < 0 || i + pat.len() > s.len() {
        0
    } else if match_at(s, pat, i) {
        1 + count_from(s, pat, i + pat.len())
    } else {
        count_from(s, pat, i + 1)
    }
}

/// Occurrence count never exceeds the remaining length.
pub proof fn lemma_count_bound(s: Seq<u8>, pat: Seq<u8>, i: int)
    requires
        pat.len() >= 1,
    ensures
        count_from(s, pat, i) <= s.len() - i || count_from(s, pat, i) == 0,
    decreases s.len() - i,
{
    if !(pat.len() == 0 || i < 0 || i + pat.len() > s.len()) {
        if match_at(s, pat, i) {
            lemma_count_bound(s, pat, i + pat.len());
        } else {
            lemma_count_bound(s, pat, i + 1);
        }
    }
}

/// Whether the bytes of `pat` occur at position `i` of `text`, executable.
fn bytes_match_at(text: &[u8], pat: &[u8], i: usize) -> (r: bool)
    requires
        i + pat@.len() <= text@.len(),
        text@.len() < 0x8000000,
    ensures
        r == match_at(text@, pat@, i as int),
{
    let mut k: usize = 0;
    while k < pat.len()
        invariant
            k <= pat@.len(),
            i + pat@.len() <= text@.len(),
            text@.len() < 0x8000000,
            forall|j: int| 0 <= j < k ==> text@[i + j] == pat@[j],
        decreases pat@.len() - k,
    {
        if text[i + k] != pat[k] {
            proof {
                assert(text@.subrange(i as int, i + pat@.len())[k as int] == text@[i + k]);
            }
            return false;
        }
        k += 1;
    }
    proof {
        assert(text@.subrange(i as int, i + pat@.len()) =~= pat@);
    }
    true
}

/// Count the non-overlapping occurrences of `pat` in `text`.
pub fn count_occurrences(text: &[u8], pat: &[u8]) -> (r: usize)
    requires
        1 <= pat@.len(),
        text@.len() < 0x8000000,
    ensures
        r == count_from(text@, pat@, 0),
        r <= text@.len(),
{
    let mut i: usize = 0;
    let mut acc: usize = 0;
    proof {
        lemma_count_bound(text@, pat@, 0);
    }
    if pat.len() > text.len() {
        return 0;
    }
    while i + pat.len() <= text.len()
        invariant
            1 <= pat@.len() <= text@.len(),
            text@.len() < 0x8000000,
            0 <= i <= text@.len() + pat@.len(),
            acc + count_from(text@, pat@, i as int) == count_from(text@, pat@, 0),
            acc <= i,
        decreases text@.len() - i,
    {
        if bytes_match_at(text, pat, i) {
            acc += 1;
            i += pat.len();
        } else {
            i += 1;
        }
    }
    proof {
        assert(count_from(text@, pat@, i as int) == 0);
        lemma_count_bound(text@, pat@, 0);
    }
    acc
}

/// The bytes of a space-delimited single-letter path command: a space, the
/// command letter, a space.
pub open spec fn spaced(mid: u8) -> Seq<u8> {
    seq![32u8, mid, 32u8]
}

/// Count occurrences of a space-delimited command letter.
fn count_spaced(text: &[u8], mid: u8) -> (r: usize)
    requires
        text@.len() < 0x8000000,
    ensures
        r == count_from(text@, spaced(mid), 0),
        r <= text@.len(),
{
    let mut pat: Vec<u8> = Vec::new();
    pat.push(32);
    pat.push(mid);
    pat.push(32);
    proof {
        assert(pat@ =~= spaced(mid));
    }
    count_occurrences(text, pat.as_slice())
}

/// The bytes of the opening of a `circle` element.
pub open spec fn pat_circle() -> Seq<u8> {
    seq![60u8, 99u8, 105u8, 114u8, 99u8, 108u8, 101u8]
}

/// The bytes of the opening of an `ellipse` element.
pub open spec fn pat_ellipse() -> Seq<u8> {
    seq![60u8, 101u8, 108u8, 108u8, 105u8, 112u8, 115u8, 101u8]
}

/// The bytes of the opening of a `path` element.
pub open spec fn pat_path() -> Seq<u8> {
    seq![60u8, 112u8, 97u8, 116u8, 104u8]
}

fn push_all(v: &mut Vec<u8>, a: u8, b: u8, c: u8, d: u8)
    ensures
        final(v)@ == old(v)@ + seq![a, b, c, d],
{
    v.push(a);
    v.push(b);
    v.push(c);
    v.push(d);
    proof {
        assert(v@ =~= old(v)@ + seq![a, b, c, d]);
    }
}

/// Counts of potential arc indicators in a markup document.
#[derive(Clone, Copy, Debug, PartialEq, Eq, Structural)]
pub struct ArcIndicators {
    pub circles: usize,
    pub ellipses: usize,
    pub arc_commands: usize,
    pub path_elements: usize,
    pub curves: usize,
}

/// Count the markup constructs that hint at circular-arc content: `circle`
/// and `ellipse` elements, `path` elements, space-delimited arc commands
/// (`A`/`a`), and every kind of space-delimited curve command
/// (`C`/`c`/`Q`/`q`/`S`/`s`/`T`/`t`).
pub fn count_arc_indicators(svg_content: &str) -> (r: ArcIndicators)
    requires
        svg_content.spec_bytes().len() < 0x8000000,
    ensures
        ({
            let s = svg_content.spec_bytes();
            &&& r.circles == count_from(s, pat_circle(), 0)
            &&& r.ellipses == count_from(s, pat_ellipse(), 0)
            &&& r.path_elements == count_from(s, pat_path(), 0)
            &&& r.arc_commands == count_from(s, spaced(65), 0) + count_from(s, spaced(97), 0)
            &&& r.curves == count_from(s, spaced(67), 0) + count_from(s, spaced(99), 0)
                + count_from(s, spaced(81), 0) + count_from(s, spaced(113), 0) + count_from(
                s,
                spaced(83),
                0,
            ) + count_from(s, spaced(115), 0) + count_from(s, spaced(84), 0) + count_from(
                s,
                spaced(116),
                0,
            )
        }),
{
    let b = svg_content.as_bytes();
    let mut pc: Vec<u8> = Vec::new();
    pc.push(60);
    pc.push(99);
    pc.push(105);
    push_all(&mut pc, 114, 99, 108, 101);
    proof {
        assert(pc@ =~= pat_circle());
    }
    let circles = count_occurrences(b, pc.as_slice());
    let mut pe: Vec<u8> = Vec::new();
    pe.push(60);
    pe.push(101);
    pe.push(108);
    pe.push(108);
    push_all(&mut pe, 105, 112, 115, 101);
    proof {
        assert(pe@ =~= pat_ellipse());
    }
    let ellipses = count_occurrences(b, pe.as_slice());
    let mut pp: Vec<u8> = Vec::new();
    pp.push(60);
    push_all(&mut pp, 112, 97, 116, 104);
    proof {
        assert(pp@ =~= pat_path());
    }
    let path_elements = count_occurrences(b, pp.as_slice());
    let arc_upper = count_spaced(b, 65);
    let arc_lower = count_spaced(b, 97);
    let c1 = count_spaced(b, 67);
    let c2 = count_spaced(b, 99);
    let c3 = count_spaced(b, 81);
    let c4 = count_spaced(b, 113);
    let c5 = count_spaced(b, 83);
    let c6 = count_spaced(b, 115);
    let c7 = count_spaced(b, 84);
    let c8 = count_spaced(b, 116);
    ArcIndicators {
        circles,
        ellipses,
        arc_commands: arc_upper + arc_lower,
        path_elements,
        curves: c1 + c2 + c3 + c4 + c5 + c6 + c7 + c8,
    }
}

/// Find an occurrence of `pat` at or after `from`.
fn find_from(text: &[u8], pat: &[u8], from: usize) -> (r: Option<usize>)
    requires
        1 <= pat@.len(),
        text@.len() < 0x8000000,
    ensures
        r matches Some(i) ==> from <= i && match_at(text@, pat@, i as int) && i < text@.len(),
{
    if pat.len() > text.len() || from >= text.len() {
        return None;
    }
    let mut i: usize = from;
    while i + pat.len() <= text.len()
        invariant
            1 <= pat@.len() <= text@.len() < 0x8000000,
            from <= i <= text@.len(),
        decreases text@.len() - i,
    {
        if bytes_match_at(text, pat, i) {
            return Some(i);
        }
        i += 1;
    }
    None
}

/// Shape-element and path-command counts of a markup document.
#[derive(Clone, Copy, Debug, PartialEq, Eq, Structural)]
pub struct MarkupCounts {
    pub rects: usize,
    pub polygons: usize,
    pub polylines: usize,
    pub lines: usize,
    pub move_commands: usize,
    pub line_commands: usize,
    pub close_commands: usize,
}

/// The bytes of the opening of a `rect` element.
pub open spec fn pat_rect() -> Seq<u8> {
    seq![60u8, 114u8, 101u8, 99u8, 116u8]
}

/// The bytes of the opening of a `polygon` element.
pub open spec fn pat_polygon() -> Seq<u8> {
    seq![60u8, 112u8, 111u8, 108u8, 121u8, 103u8, 111u8, 110u8]
}

/// The bytes of the opening of a `polyline` element.
pub open spec fn pat_polyline() -> Seq<u8> {
    seq![60u8, 112u8, 111u8, 108u8, 121u8, 108u8, 105u8, 110u8, 101u8]
}

/// The bytes of the opening of a `line` element.
pub open spec fn pat_line() -> Seq<u8> {
    seq![60u8, 108u8, 105u8, 110u8, 101u8]
}

/// The bytes of a close command preceded by a space (`Z` or `z`).
pub open spec fn pat_close(c: u8) -> Seq<u8> {
    seq![32u8, c]
}

/// Count the shape elements and space-delimited move, line and close
/// commands of a markup document.
pub fn analyze_svg_content(svg_content: &str) -> (r: MarkupCounts)
    requires
        svg_content.spec_bytes().len() < 0x8000000,
    ensures
        ({
            let s = svg_content.spec_bytes();
            &&& r.rects == count_from(s, pat_rect(), 0)
            &&& r.polygons == count_from(s, pat_polygon(), 0)
            &&& r.polylines == count_from(s, pat_polyline(), 0)
            &&& r.lines == count_from(s, pat_line(), 0)
            &&& r.move_commands == count_from(s, spaced(77), 0) + count_from(s, spaced(109), 0)
            &&& r.line_commands == count_from(s, spaced(76), 0) + count_from(s, spaced(108), 0)
            &&& r.close_commands == count_from(s, pat_close(90), 0) + count_from(
                s,
                pat_close(122),
                0,
            )
        }),
{
    let b = svg_content.as_bytes();
    let mut pr: Vec<u8> = Vec::new();
    pr.push(60);
    push_all(&mut pr, 114, 101, 99, 116);
    proof {
        assert(pr@ =~= pat_rect());
    }
    let rects = count_occurrences(b, pr.as_slice());
    let mut pg: Vec<u8> = Vec::new();
    pg.push(60);
    pg.push(112);
    pg.push(111);
    pg.push(108);
    push_all(&mut pg, 121, 103, 111, 110);
    proof {
        assert(pg@ =~= pat_polygon());
    }
    let polygons = count_occurrences(b, pg.as_slice());
    let mut pl: Vec<u8> = Vec::new();
    pl.push(60);
    pl.push(112);
    pl.push(111);
    pl.push(108);
    pl.push(121);
    push_all(&mut pl, 108, 105, 110, 101);
    proof {
        assert(pl@ =~= pat_polyline());
    }
    let polylines = count_occurrences(b, pl.as_slice());
    let mut pn: Vec<u8> = Vec::new();
    pn.push(60);
    push_all(&mut pn, 108, 105, 110, 101);
    proof {
        assert(pn@ =~= pat_line());
    }
    let lines = count_occurrences(b, pn.as_slice());
    let m1 = count_spaced(b, 77);
    let m2 = count_spaced(b, 109);
    let l1 = count_spaced(b, 76);
    let l2 = count_spaced(b, 108);
    let mut zc: Vec<u8> = Vec::new();
    zc.push(32);
    zc.push(90);
    proof {
        assert(zc@ =~= pat_close(90));
    }
    let z1 = count_occurrences(b, zc.as_slice());
    let mut zl: Vec<u8> = Vec::new();
    zl.push(32);
    zl.push(122);
    proof {
        assert(zl@ =~= pat_close(122));
    }
    let z2 = count_occurrences(b, zl.as_slice());
    MarkupCounts {
        rects,
        polygons,
        polylines,
        lines,
        move_commands: m1 + m2,
        line_commands: l1 + l2,
        close_commands: z1 + z2,
    }
}

/// Extract up to three path-data samples from a document: for each of the
/// first `path` elements, the value of its `d` attribute truncated to two
/// hundred characters, or the element opening itself when no `d` value is
/// found. Every sample is a verbatim excerpt of the input; non-ASCII input
/// yields no samples.
pub fn sample_path_data(svg_content: &str) -> (r: Vec<String>)
    requires
        svg_content.spec_bytes().len() < 0x8000000,
    ensures
        r@.len() <= 3,
        forall|k: int|
            0 <= k < r@.len() ==> exists|i: int, j: int|
                0 <= i <= j <= svg_content@.len() && (#[trigger] r@[k])@ == svg_content@.subrange(
                    i,
                    j,
                ),
{
    let mut samples: Vec<String> = Vec::new();
    if !svg_content.is_ascii() {
        return samples;
    }
    proof {
        vstd::string::is_ascii_spec_bytes(svg_content);
    }
    let b = svg_content.as_bytes();
    let mut pp: Vec<u8> = Vec::new();
    pp.push(60);
    push_all(&mut pp, 112, 97, 116, 104);
    let mut dq: Vec<u8> = Vec::new();
    dq.push(100);
    dq.push(61);
    dq.push(34);
    let mut quote: Vec<u8> = Vec::new();
    quote.push(34);
    let mut gt: Vec<u8> = Vec::new();
    gt.push(62);
    let mut cursor: usize = 0;
    while cursor < b.len() && samples.len() < 3
        invariant
            b@ == svg_content.spec_bytes(),
            b@.len() == svg_content@.len(),
            b@.len() < 0x8000000,
            samples@.len() <= 3,
            pp@.len() == 5 && dq@.len() == 3 && quote@.len() == 1 && gt@.len() == 1,
            svg_content.is_ascii(),
            forall|k: int|
                0 <= k < samples@.len() ==> exists|i: int, j: int|
                    0 <= i <= j <= svg_content@.len() && (#[trigger] samples@[k])@
                        == svg_content@.subrange(i, j),
        decreases b@.len() - cursor,
    {
        let p = match find_from(b, pp.as_slice(), cursor) {
            Option::Some(p) => p,
            Option::None => {
                break ;
            },
        };
        let elem_end = match find_from(b, gt.as_slice(), p) {
            Option::Some(e) => e,
            Option::None => b.len(),
        };
        let dpos = find_from(b, dq.as_slice(), p);
        let (lo, hi): (usize, usize) = match dpos {
            Option::Some(d) if d < elem_end => {
                let vstart = d + 3;
                let vend = match find_from(b, quote.as_slice(), vstart) {
                    Option::Some(q) => q,
                    Option::None => b.len(),
                };
                let capped = if vend > vstart + 200 {
                    vstart + 200
                } else {
                    vend
                };
                if vstart <= capped && capped <= b.len() {
                    (vstart, capped)
                } else {
                    (p, p)
                }
            },
            _ => {
                let e = if elem_end + 1 <= b.len() {
                    elem_end + 1
                } else {
                    b.len()
                };
                let capped = if e > p + 300 {
                    p + 300
                } else {
                    e
                };
                (p, capped)
            },
        };
        if lo <= hi && hi <= b.len() {
            let piece = svg_content.substring_ascii(lo, hi);
            let owned = piece.to_owned();
            proof {
                assert(owned@ == svg_content@.subrange(lo as int, hi as int));
            }
            samples.push(owned);
        }
        if p < cursor + 1 {
            cursor = cursor + 1;
        } else {
            cursor = p + 1;
        }
    }
    samples
}

/// Count of newline bytes from position `i` on.
pub open spec fn nl_count(s: Seq<u8>, i: int) -> nat
    decreases s.len() - i,
{
    if i < 0 || i >= s.len() {
        0
    } else {
        (if s[i] == 10 {
            1nat
        } else {
            0nat
        }) + nl_count(s, i + 1)
    }
}

/// How many lines a text splits into: one per newline, plus a final
/// unterminated line.
pub open spec fn spec_total_lines(s: Seq<u8>) -> nat {
    nl_count(s, 0) + (if s.len() > 0 && s[s.len() - 1] != 10 {
        1nat
    } else {
        0nat
    })
}

/// The first position at or after `j` holding neither a space, a tab, nor a
/// carriage return.
pub open spec fn trim_start(s: Seq<u8>, j: int) -> int
    decreases s.len() - j,
{
    if j < 0 || j >= s.len() {
        j
    } else if s[j] == 32 || s[j] == 9 || s[j] == 13 {
        trim_start(s, j + 1)
    } else {
        j
    }
}

/// Whether a line starts at position `j`.
pub open spec fn is_line_start(s: Seq<u8>, j: int) -> bool {
    0 <= j < s.len() && (j == 0 || s[j - 1] == 10)
}

/// Whether the line starting at `j`, once trimmed, begins with the one- or
/// two-digit move word with digit `d` (`G<d> ` or `G0<d> `).
pub open spec fn is_gmove_line(s: Seq<u8>, j: int, d: u8) -> bool {
    &&& is_line_start(s, j)
    &&& {
        ||| match_at(s, seq![71u8, d, 32u8], trim_start(s, j))
        ||| match_at(s, seq![71u8, 48u8, d, 32u8], trim_start(s, j))
    }
}

/// Count of move lines with digit `d` starting at or after position `i`.
pub open spec fn count_glines(s: Seq<u8>, i: int, d: u8) -> nat
    decreases s.len() - i,
{
    if i < 0 || i >= s.len() {
        0
    } else {
        (if is_gmove_line(s, i, d) {
            1nat
        } else {
            0nat
        }) + count_glines(s, i + 1, d)
    }
}

/// Move statistics of a rendered program.
#[derive(Clone, Copy, Debug, PartialEq, Eq, Structural)]
pub struct GCodeStats {
    pub g1_count: usize,
    pub g2_count: usize,
    pub g3_count: usize,
    pub total_lines: usize,
}

/// Whether the `G<d> ` / `G0<d> ` move word stands at position `t`.
fn gword_at(text: &[u8], t: usize, d: u8) -> (r: bool)
    requires
        t <= text@.len() < 0x8000000,
    ensures
        r == (match_at(text@, seq![71u8, d, 32u8], t as int) || match_at(
            text@,
            seq![71u8, 48u8, d, 32u8],
            t as int,
        )),
{
    let mut p3: Vec<u8> = Vec::new();
    p3.push(71);
    p3.push(d);
    p3.push(32);
    let mut p4: Vec<u8> = Vec::new();
    p4.push(71);
    p4.push(48);
    p4.push(d);
    p4.push(32);
    proof {
        assert(p3@ =~= seq![71u8, d, 32u8]);
        assert(p4@ =~= seq![71u8, 48u8, d, 32u8]);
    }
    let short_hit = if t + 3 <= text.len() {
        bytes_match_at(text, p3.as_slice(), t)
    } else {
        false
    };
    let long_hit = if t + 4 <= text.len() {
        bytes_match_at(text, p4.as_slice(), t)
    } else {
        false
    };
    short_hit || long_hit
}

/// Count rendered lines and the straight, clockwise, and counterclockwise
/// move commands that start them.
pub fn analyze_gcode(gcode: &str) -> (r: GCodeStats)
    requires
        gcode.spec_bytes().len() < 0x8000000,
    ensures
        ({
            let s = gcode.spec_bytes();
            &&& r.total_lines == spec_total_lines(s)
            &&& r.g1_count == count_glines(s, 0, 49)
            &&& r.g2_count == count_glines(s, 0, 50)
            &&& r.g3_count == count_glines(s, 0, 51)
        }),
{
    let b = gcode.as_bytes();
    let mut j: usize = 0;
    let mut nl: usize = 0;
    let mut g1: usize = 0;
    let mut g2: usize = 0;
    let mut g3: usize = 0;
    while j < b.len()
        invariant
            b@ == gcode.spec_bytes(),
            b@.len() < 0x8000000,
            j <= b@.len(),
            nl <= j,
            g1 <= j && g2 <= j && g3 <= j,
            nl + nl_count(b@, j as int) == nl_count(b@, 0),
            g1 + count_glines(b@, j as int, 49) == count_glines(b@, 0, 49),
            g2 + count_glines(b@, j as int, 50) == count_glines(b@, 0, 50),
            g3 + count_glines(b@, j as int, 51) == count_glines(b@, 0, 51),
        decreases b@.len() - j,
    {
        if b[j] == 10 {
            nl += 1;
        }
        let is_start = j == 0 || b[j - 1] == 10;
        if is_start {
            // skip leading spaces, tabs and carriage returns
            let mut t: usize = j;
            while t < b.len() && (b[t] == 32 || b[t] == 9 || b[t] == 13)
                invariant
                    j <= t <= b@.len(),
                    b@.len() < 0x8000000,
                    trim_start(b@, j as int) == trim_start(b@, t as int),
                decreases b@.len() - t,
            {
                t += 1;
            }
            proof {
                assert(trim_start(b@, t as int) == t as int);
            }
            if gword_at(b, t, 49) {
                g1 += 1;
            }
            if gword_at(b, t, 50) {
                g2 += 1;
            }
            if gword_at(b, t, 51) {
                g3 += 1;
            }
        }
        j += 1;
    }
    let total_lines = if b.len() > 0 && b[b.len() - 1] != 10 {
        nl + 1
    } else {
        nl
    };
    GCodeStats { g1_count: g1, g2_count: g2, g3_count: g3, total_lines }
}

} // verus!
