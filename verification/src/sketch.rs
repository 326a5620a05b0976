//! Single-file component sketches: which component a sketch holds, the file
//! a new sketch is written to, and what expanding a plate sketch extracts.
use vstd::prelude::*;
use crate::text::{
    chars_of, contains_str, is_ws, char_is_ws, lines_chars, lines_of, matches_at, push_char,
    push_str, seq_contains, seq_starts_with, str_eq, string_from_chars,
};

verus! {

/// The component a sketch holds.
#[derive(Debug, Clone, Copy, PartialEq, Eq, Structural)]
pub enum SketchKind {
    Plate,
    Route,
    App,
}

/// The component the sketch text `content` holds, told by its impl lines.
pub open spec fn sketch_kind_of(content: Seq<char>) -> Option<SketchKind> {
    if seq_contains(content, "impl<C: AppConfig> Plate<C>"@) {
        Some(SketchKind::Plate)
    } else if seq_contains(content, "impl<C: AppConfig> Route<C>"@) {
        Some(SketchKind::Route)
    } else if seq_contains(content, "impl AppConfig for"@) {
        Some(SketchKind::App)
    } else {
        None
    }
}

/// The component a sketch holds, if it can be told.
pub fn sketch_kind(content: &str) -> (k: Option<SketchKind>)
    ensures
        k == sketch_kind_of(content@),
{
    if contains_str(content, "impl<C: AppConfig> Plate<C>") {
        Some(SketchKind::Plate)
    } else if contains_str(content, "impl<C: AppConfig> Route<C>") {
        Some(SketchKind::Route)
    } else if contains_str(content, "impl AppConfig for") {
        Some(SketchKind::App)
    } else {
        None
    }
}

/// The kind a `sketch` command names, or the error it is refused with.
pub fn parse_sketch_kind(kind: &str) -> (r: Result<SketchKind, String>)
    ensures
        kind@ == "plate"@ ==> r == Ok::<SketchKind, String>(SketchKind::Plate),
        kind@ == "route"@ ==> r == Ok::<SketchKind, String>(SketchKind::Route),
        kind@ == "app"@ ==> r == Ok::<SketchKind, String>(SketchKind::App),
        (kind@ != "plate"@ && kind@ != "route"@ && kind@ != "app"@) ==> (r matches Err(m)
            && m@ == "Unknown component kind: "@ + kind@ + ". Use plate, route, or app."@),
{
    proof {
        reveal_strlit("plate");
        reveal_strlit("route");
        reveal_strlit("app");
        assert("plate"@[0] != "route"@[0]);
        assert("plate"@ != "route"@);
        assert("plate"@.len() != "app"@.len());
        assert("route"@.len() != "app"@.len());
    }
    if str_eq(kind, "plate") {
        Ok(SketchKind::Plate)
    } else if str_eq(kind, "route") {
        Ok(SketchKind::Route)
    } else if str_eq(kind, "app") {
        Ok(SketchKind::App)
    } else {
        let mut m = "Unknown component kind: ".to_owned();
        push_str(&mut m, kind);
        push_str(&mut m, ". Use plate, route, or app.");
        Err(m)
    }
}

/// `s` in lowercase, as `str::to_lowercase` maps it.
pub uninterp spec fn lowercase(s: Seq<char>) -> Seq<char>;

/// `str::to_lowercase`. The result is named, not stated: it is `lowercase`
/// of the argument (Unicode's full lowercase mapping).
#[verifier::external_body]
pub(crate) fn to_lowercase(s: &str) -> (r: String)
    ensures
        r@ == lowercase(s@),
{
    s.to_lowercase()
}

/// `s` with every space replaced by an underscore.
pub open spec fn spaces_to_underscores(s: Seq<char>) -> Seq<char> {
    s.map_values(|c: char| if c == ' ' { '_' } else { c })
}

/// The file a sketch called `name` is written to:
/// `<name lowercased, spaces as underscores>.sketch.rs`.
pub fn sketch_file_name(name: &str) -> (f: String)
    ensures
        f@ == spaces_to_underscores(lowercase(name@)) + ".sketch.rs"@,
{
    let lower = to_lowercase(name);
    let cs = chars_of(lower.as_str());
    let mut out = String::new();
    let mut i: usize = 0;
    while i < cs.len()
        invariant
            i <= cs@.len(),
            cs@ == lowercase(name@),
            out@ == spaces_to_underscores(cs@.take(i as int)),
        decreases cs.len() - i,
    {
        let c = cs[i];
        push_char(&mut out, if c == ' ' { '_' } else { c });
        assert(spaces_to_underscores(cs@.take(i + 1)) =~= spaces_to_underscores(cs@.take(i as int)).push(
            if c == ' ' { '_' } else { c },
        ));
        i = i + 1;
    }
    assert(cs@.take(cs@.len() as int) =~= cs@);
    push_str(&mut out, ".sketch.rs");
    out
}

/// The index of the first non-white-space character at or after `i`.
pub open spec fn skip_ws(s: Seq<char>, i: int) -> int
    decreases s.len() - i,
{
    if i >= s.len() || !is_ws(s[i]) {
        i
    } else {
        skip_ws(s, i + 1)
    }
}

/// The index of the first white-space character at or after `i`.
pub open spec fn word_end(s: Seq<char>, i: int) -> int
    decreases s.len() - i,
{
    if i >= s.len() || is_ws(s[i]) {
        i
    } else {
        word_end(s, i + 1)
    }
}

/// `skip_ws` stays within the text and does not go back.
pub proof fn lemma_skip_ws(s: Seq<char>, i: int)
    requires
        0 <= i <= s.len(),
    ensures
        i <= skip_ws(s, i) <= s.len(),
        skip_ws(s, i) < s.len() ==> !is_ws(s[skip_ws(s, i)]),
    decreases s.len() - i,
{
    if i < s.len() && is_ws(s[i]) {
        lemma_skip_ws(s, i + 1);
    }
}

/// `word_end` stays within the text, and moves past a non-space.
pub proof fn lemma_word_end(s: Seq<char>, i: int)
    requires
        0 <= i <= s.len(),
    ensures
        i <= word_end(s, i) <= s.len(),
        i < s.len() && !is_ws(s[i]) ==> i < word_end(s, i),
    decreases s.len() - i,
{
    if i < s.len() && !is_ws(s[i]) {
        lemma_word_end(s, i + 1);
    }
}

/// The white-space separated words of `s` from `i` on
/// (`str::split_whitespace`).
pub open spec fn words_from(s: Seq<char>, i: int) -> Seq<Seq<char>>
    decreases s.len() - i,
{
    if i < 0 || i >= s.len() {
        Seq::empty()
    } else {
        let a = skip_ws(s, i);
        proof {
            lemma_skip_ws(s, i);
        }
        if a >= s.len() {
            Seq::empty()
        } else {
            let b = word_end(s, a);
            proof {
                lemma_word_end(s, a);
            }
            seq![s.subrange(a, b)] + words_from(s, b)
        }
    }
}

/// `s` with every non-overlapping occurrence of the non-empty `pat`,
/// from the left, replaced by `rep` (`str::replace`).
pub open spec fn replace_all(s: Seq<char>, pat: Seq<char>, rep: Seq<char>) -> Seq<char>
    decreases s.len(),
{
    if s.len() == 0 || pat.len() == 0 {
        s
    } else if seq_starts_with(s, pat) {
        rep + replace_all(s.subrange(pat.len() as int, s.len() as int), pat, rep)
    } else {
        seq![s[0]] + replace_all(s.drop_first(), pat, rep)
    }
}

fn replace_chars(s: &[char], pat: &[char], rep: &[char]) -> (r: Vec<char>)
    requires
        pat@.len() > 0,
    ensures
        r@ == replace_all(s@, pat@, rep@),
{
    let n = s.len();
    let mut out: Vec<char> = Vec::new();
    let mut i: usize = 0;
    assert(s@.subrange(0, n as int) =~= s@);
    while i < n
        invariant
            i <= n,
            n == s@.len(),
            pat@.len() > 0,
            out@ + replace_all(s@.subrange(i as int, n as int), pat@, rep@) == replace_all(s@, pat@, rep@),
        decreases n - i,
    {
        let ghost rest = s@.subrange(i as int, n as int);
        if matches_at(s, pat, i) {
            assert(seq_starts_with(rest, pat@)) by {
                assert(rest.subrange(0, pat@.len() as int) =~= s@.subrange(i as int, i + pat@.len()));
            }
            assert(rest.subrange(pat@.len() as int, rest.len() as int) =~= s@.subrange(i + pat@.len(), n as int));
            let ghost before = out@;
            let mut k: usize = 0;
            while k < rep.len()
                invariant
                    k <= rep@.len(),
                    out@ == before + rep@.take(k as int),
                decreases rep.len() - k,
            {
                out.push(rep[k]);
                assert(rep@.take(k + 1) =~= rep@.take(k as int).push(rep@[k as int]));
                k = k + 1;
            }
            assert(rep@.take(rep@.len() as int) =~= rep@);
            assert(out@ + replace_all(s@.subrange(i + pat@.len(), n as int), pat@, rep@)
                =~= before + replace_all(rest, pat@, rep@));
            i = i + pat.len();
        } else {
            assert(!seq_starts_with(rest, pat@)) by {
                if seq_starts_with(rest, pat@) {
                    assert(rest.subrange(0, pat@.len() as int) =~= s@.subrange(i as int, i + pat@.len()));
                }
            }
            assert(rest.drop_first() =~= s@.subrange(i + 1, n as int));
            let ghost before = out@;
            out.push(s[i]);
            assert(out@ + replace_all(s@.subrange(i + 1, n as int), pat@, rep@)
                =~= before + replace_all(rest, pat@, rep@));
            i = i + 1;
        }
    }
    assert(s@.subrange(n as int, n as int) =~= Seq::<char>::empty());
    assert(out@ + Seq::<char>::empty() =~= out@);
    out
}

/// The third word of `line`, if it has one.
fn third_word(line: &[char]) -> (w: Option<Vec<char>>)
    ensures
        match w {
            Some(v) => words_from(line@, 0).len() > 2 && v@ == words_from(line@, 0)[2],
            None => words_from(line@, 0).len() <= 2,
        },
{
    let n = line.len();
    let mut i: usize = 0;
    let mut count: usize = 0;
    while count < 3
        invariant
            i <= n,
            n == line@.len(),
            count <= 2,
            words_from(line@, 0).len() >= count,
            words_from(line@, 0) == words_from(line@, 0).take(count as int) + words_from(line@, i as int),
        decreases 3 - count,
    {
        let mut a = i;
        while a < n && char_is_ws(line[a])
            invariant
                i <= a <= n,
                n == line@.len(),
                skip_ws(line@, i as int) == skip_ws(line@, a as int),
            decreases n - a,
        {
            a = a + 1;
        }
        if a >= n {
            assert(words_from(line@, i as int) == Seq::<Seq<char>>::empty());
            return None;
        }
        let mut b = a;
        while b < n && !char_is_ws(line[b])
            invariant
                a <= b <= n,
                n == line@.len(),
                word_end(line@, a as int) == word_end(line@, b as int),
            decreases n - b,
        {
            b = b + 1;
        }
        proof {
            lemma_word_end(line@, a as int);
            let ws = words_from(line@, i as int);
            assert(ws == seq![line@.subrange(a as int, b as int)] + words_from(line@, b as int));
            assert(words_from(line@, 0).take(count + 1) =~= words_from(line@, 0).take(count as int).push(
                line@.subrange(a as int, b as int),
            ));
        }
        if count == 2 {
            let mut v: Vec<char> = Vec::new();
            let mut k: usize = a;
            while k < b
                invariant
                    a <= k <= b <= n,
                    n == line@.len(),
                    v@ == line@.subrange(a as int, k as int),
                decreases b - k,
            {
                v.push(line[k]);
                assert(line@.subrange(a as int, k + 1) =~= line@.subrange(a as int, k as int).push(line@[k as int]));
                k = k + 1;
            }
            return Some(v);
        }
        i = b;
        count = count + 1;
    }
    None
}

/// The name a plate sketch gives its plate: the third word of the first
/// line that mentions both `struct` and `Plate`, without `Plate;` and
/// `Plate`; "Unknown" when there is none.
pub open spec fn sketch_plate_name(content: Seq<char>) -> Seq<char> {
    let ls = lines_of(content);
    if exists|i: int| 0 <= i < ls.len() && is_plate_line(ls[i]) {
        let i = choose|i: int| first_plate_line(ls, i);
        let ws = words_from(ls[i], 0);
        if ws.len() > 2 {
            replace_all(replace_all(ws[2], "Plate;"@, Seq::empty()), "Plate"@, Seq::empty())
        } else {
            "Unknown"@
        }
    } else {
        "Unknown"@
    }
}

/// Whether a line declares the plate struct.
pub open spec fn is_plate_line(l: Seq<char>) -> bool {
    seq_contains(l, "struct"@) && seq_contains(l, "Plate"@)
}

/// Whether `i` is the first plate line of `ls`.
pub open spec fn first_plate_line(ls: Seq<Seq<char>>, i: int) -> bool {
    0 <= i < ls.len() && is_plate_line(ls[i]) && forall|j: int| 0 <= j < i ==> !is_plate_line(#[trigger] ls[j])
}

proof fn lemma_first_plate_line_unique(ls: Seq<Seq<char>>, i: int)
    requires
        first_plate_line(ls, i),
    ensures
        (choose|k: int| first_plate_line(ls, k)) == i,
{
    let k = choose|k: int| first_plate_line(ls, k);
    assert(first_plate_line(ls, k));
    if k < i {
        assert(!is_plate_line(ls[k]));
    } else if k > i {
        assert(!is_plate_line(ls[i]));
    }
}

/// The plate name of a plate sketch.
pub fn plate_name_from_sketch(content: &str) -> (name: String)
    ensures
        name@ == sketch_plate_name(content@),
{
    let cs = chars_of(content);
    let lines = lines_chars(cs.as_slice());
    let ghost ls = lines_of(content@);
    let strukt = chars_of("struct");
    let plate = chars_of("Plate");
    let plate_semi = chars_of("Plate;");
    let empty: Vec<char> = Vec::new();
    let mut i: usize = 0;
    while i < lines.len()
        invariant
            i <= lines@.len(),
            lines@.len() == ls.len(),
            ls == lines_of(content@),
            forall|k: int| 0 <= k < lines@.len() ==> (#[trigger] lines@[k])@ == ls[k],
            forall|j: int| 0 <= j < i ==> !is_plate_line(#[trigger] ls[j]),
            strukt@ == "struct"@,
            plate@ == "Plate"@,
            plate_semi@ == "Plate;"@,
            empty@.len() == 0,
        decreases lines.len() - i,
    {
        let l = lines[i].as_slice();
        if crate::text::contains_chars(l, strukt.as_slice()) && crate::text::contains_chars(l, plate.as_slice()) {
            assert(first_plate_line(ls, i as int));
            proof {
                lemma_first_plate_line_unique(ls, i as int);
            }
            proof {
                reveal_strlit("Plate;");
                reveal_strlit("Plate");
            }
            match third_word(l) {
                Some(w) => {
                    let a = replace_chars(w.as_slice(), plate_semi.as_slice(), empty.as_slice());
                    let b = replace_chars(a.as_slice(), plate.as_slice(), empty.as_slice());
                    assert(empty@ =~= Seq::<char>::empty());
                    return string_from_chars(b.as_slice());
                },
                None => {
                    return "Unknown".to_owned();
                },
            }
        }
        i = i + 1;
    }
    "Unknown".to_owned()
}

/// The lines of `lines` that do not start with `//!`, joined with `\n`.
pub open spec fn join_kept(lines: Seq<Seq<char>>) -> Seq<char>
    decreases lines.len(),
{
    if lines.len() == 0 {
        Seq::empty()
    } else {
        let rest = join_kept(lines.drop_last());
        if seq_starts_with(lines.last(), "//!"@) {
            rest
        } else if kept_count(lines.drop_last()) == 0 {
            lines.last()
        } else {
            rest + seq!['\n'] + lines.last()
        }
    }
}

/// How many of `lines` do not start with `//!`.
pub open spec fn kept_count(lines: Seq<Seq<char>>) -> nat
    decreases lines.len(),
{
    if lines.len() == 0 {
        0
    } else {
        kept_count(lines.drop_last()) + if seq_starts_with(lines.last(), "//!"@) { 0nat } else { 1nat }
    }
}

proof fn lemma_join_kept_empty(lines: Seq<Seq<char>>)
    requires
        kept_count(lines) == 0,
    ensures
        join_kept(lines) == Seq::<char>::empty(),
    decreases lines.len(),
{
    if lines.len() > 0 {
        lemma_join_kept_empty(lines.drop_last());
    }
}

/// A sketch without its `//!` lines: the other lines joined with `\n`.
pub fn strip_sketch_doc_lines(content: &str) -> (out: String)
    ensures
        out@ == join_kept(lines_of(content@)),
{
    let cs = chars_of(content);
    let lines = lines_chars(cs.as_slice());
    let ghost ls = lines_of(content@);
    let bang = chars_of("//!");
    let mut out = String::new();
    let mut kept: usize = 0;
    let mut i: usize = 0;
    proof {
        reveal_strlit("");
    }
    while i < lines.len()
        invariant
            i <= lines@.len(),
            lines@.len() == ls.len(),
            ls == lines_of(content@),
            forall|k: int| 0 <= k < lines@.len() ==> (#[trigger] lines@[k])@ == ls[k],
            bang@ == "//!"@,
            out@ == join_kept(ls.take(i as int)),
            kept == kept_count(ls.take(i as int)),
            kept <= i,
        decreases lines.len() - i,
    {
        let l = lines[i].as_slice();
        assert(ls.take(i + 1).drop_last() =~= ls.take(i as int));
        assert(ls.take(i + 1).last() == ls[i as int]);
        if !matches_at(l, bang.as_slice(), 0) {
            proof {
                if kept == 0 {
                    lemma_join_kept_empty(ls.take(i as int));
                }
            }
            if kept > 0 {
                push_char(&mut out, '\n');
            }
            let s = string_from_chars(l);
            push_str(&mut out, s.as_str());
            kept = kept + 1;
            proof {
                if kept == 1 {
                    assert(out@ =~= ls[i as int]);
                }
            }
        }
        i = i + 1;
    }
    assert(ls.take(ls.len() as int) =~= ls);
    out
}

} // verus!
