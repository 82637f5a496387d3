use vstd::prelude::*;

verus! {

/// Minimum number of characters a tokenized segment must have to count as a
/// recognizable word. Shorter fragments are treated as stray-symbol noise.
pub const MIN_SEGMENT_CHARS: usize = 2;

/// The pieces of `s` between occurrences of the separators `sep1` and `sep2`,
/// in order. There is always at least one piece; an empty input yields one
/// empty piece, and each separator ends the piece before it.
pub open spec fn split_at(s: Seq<char>, sep1: char, sep2: char) -> Seq<Seq<char>>
    decreases s.len(),
{
    if s.len() == 0 {
        seq![Seq::<char>::empty()]
    } else {
        let rest = split_at(s.drop_first(), sep1, sep2);
        if s[0] == sep1 || s[0] == sep2 {
            seq![Seq::<char>::empty()] + rest
        } else {
            seq![seq![s[0]] + rest[0]] + rest.drop_first()
        }
    }
}

pub proof fn lemma_split_at_nonempty(s: Seq<char>, sep1: char, sep2: char)
    ensures
        split_at(s, sep1, sep2).len() >= 1,
    decreases s.len(),
{
    if s.len() > 0 {
        lemma_split_at_nonempty(s.drop_first(), sep1, sep2);
    }
}

/// Splits a character sequence at every occurrence of either separator.
pub fn split_chars(s: &Vec<char>, sep1: char, sep2: char) -> (r: Vec<Vec<char>>)
    ensures
        r@.map_values(|p: Vec<char>| p@) == split_at(s@, sep1, sep2),
{
    let mut pieces: Vec<Vec<char>> = Vec::new();
    let mut cur: Vec<char> = Vec::new();
    let mut i: usize = 0;
    proof {
        assert(s@.skip(0) =~= s@);
        lemma_split_at_nonempty(s@, sep1, sep2);
        let sp = split_at(s@, sep1, sep2);
        assert(pieces@.map_values(|p: Vec<char>| p@) =~= Seq::<Seq<char>>::empty());
        assert(cur@ + sp[0] =~= sp[0]);
        assert(sp =~= seq![sp[0]] + sp.drop_first());
    }
    while i < s.len()
        invariant
            i <= s@.len(),
            ({
                let sp = split_at(s@.skip(i as int), sep1, sep2);
                split_at(s@, sep1, sep2) =~= pieces@.map_values(|p: Vec<char>| p@)
                    + seq![cur@ + sp[0]] + sp.drop_first()
            }),
        decreases s@.len() - i,
    {
        proof {
            let tail = s@.skip(i as int);
            assert(tail.len() > 0);
            assert(tail[0] == s@[i as int]);
            assert(tail.drop_first() =~= s@.skip(i + 1));
            lemma_split_at_nonempty(s@.skip(i + 1), sep1, sep2);
        }
        let c = s[i];
        if c == sep1 || c == sep2 {
            let ghost old_pieces = pieces@;
            let ghost old_cur = cur@;
            pieces.push(cur);
            cur = Vec::new();
            proof {
                let sp_next = split_at(s@.skip(i + 1), sep1, sep2);
                assert(pieces@.map_values(|p: Vec<char>| p@) =~= old_pieces.map_values(
                    |p: Vec<char>| p@).push(old_cur));
                assert(split_at(s@.skip(i as int), sep1, sep2) == seq![Seq::<char>::empty()]
                    + sp_next);
                assert(old_cur + (split_at(s@.skip(i as int), sep1, sep2))[0] =~= old_cur);
                assert(sp_next =~= seq![sp_next[0]] + sp_next.drop_first());
                assert(split_at(s@, sep1, sep2) =~= pieces@.map_values(|p: Vec<char>| p@)
                    + seq![cur@ + sp_next[0]] + sp_next.drop_first());
            }
        } else {
            let ghost old_cur = cur@;
            cur.push(c);
            proof {
                let sp = split_at(s@.skip(i as int), sep1, sep2);
                let sp_next = split_at(s@.skip(i + 1), sep1, sep2);
                assert(sp == seq![seq![s@[i as int]] + sp_next[0]] + sp_next.drop_first());
                assert(sp[0] =~= seq![s@[i as int]] + sp_next[0]);
                assert(sp.drop_first() =~= sp_next.drop_first());
                assert(old_cur + sp[0] =~= cur@ + sp_next[0]);
                assert(split_at(s@, sep1, sep2) =~= pieces@.map_values(|p: Vec<char>| p@)
                    + seq![cur@ + sp_next[0]] + sp_next.drop_first());
            }
        }
        i = i + 1;
    }
    proof {
        let sp = split_at(s@.skip(s@.len() as int), sep1, sep2);
        assert(s@.skip(s@.len() as int) =~= Seq::<char>::empty());
        assert(sp == seq![Seq::<char>::empty()]);
        assert(sp.drop_first() =~= Seq::<Seq<char>>::empty());
        assert(cur@ + sp[0] =~= cur@);
    }
    let ghost old_pieces = pieces@;
    let ghost old_cur = cur@;
    pieces.push(cur);
    proof {
        assert(pieces@.map_values(|p: Vec<char>| p@) =~= old_pieces.map_values(
            |p: Vec<char>| p@).push(old_cur));
        assert(pieces@.map_values(|p: Vec<char>| p@) =~= split_at(s@, sep1, sep2));
    }
    pieces
}

/// A character stripped from the ends of tokenizer output before the output
/// is cut into lines: blank, tab, or a line break.
pub open spec fn is_trim_char(c: char) -> bool {
    c == ' ' || c == '\t' || c == '\n' || c == '\r'
}

pub open spec fn trim_front(s: Seq<char>) -> Seq<char>
    decreases s.len(),
{
    if s.len() > 0 && is_trim_char(s[0]) {
        trim_front(s.drop_first())
    } else {
        s
    }
}

pub open spec fn trim_back(s: Seq<char>) -> Seq<char>
    decreases s.len(),
{
    if s.len() > 0 && is_trim_char(s.last()) {
        trim_back(s.drop_last())
    } else {
        s
    }
}

/// `s` with leading and trailing whitespace removed.
pub open spec fn trimmed(s: Seq<char>) -> Seq<char> {
    trim_back(trim_front(s))
}

/// Strips leading and trailing whitespace characters.
pub fn trim_chars(s: &Vec<char>) -> (r: Vec<char>)
    ensures
        r@ == trimmed(s@),
{
    let mut a: usize = 0;
    proof {
        assert(s@.skip(0) =~= s@);
    }
    while a < s.len() && is_trim(s[a])
        invariant
            a <= s@.len(),
            trim_front(s@) == trim_front(s@.skip(a as int)),
        decreases s@.len() - a,
    {
        proof {
            let tail = s@.skip(a as int);
            assert(tail[0] == s@[a as int]);
            assert(tail.drop_first() =~= s@.skip(a + 1));
        }
        a = a + 1;
    }
    proof {
        if a < s@.len() {
            assert(trim_front(s@.skip(a as int)) == s@.skip(a as int));
        } else {
            assert(s@.skip(a as int) =~= Seq::<char>::empty());
        }
        assert(trim_front(s@) == s@.skip(a as int));
        assert(s@.skip(a as int) =~= s@.subrange(a as int, s@.len() as int));
    }
    let mut b: usize = s.len();
    while b > a && is_trim(s[b - 1])
        invariant
            a <= b <= s@.len(),
            trim_front(s@) == s@.skip(a as int),
            trim_back(s@.skip(a as int)) == trim_back(s@.subrange(a as int, b as int)),
        decreases b,
    {
        proof {
            let part = s@.subrange(a as int, b as int);
            assert(part.last() == s@[b - 1]);
            assert(part.drop_last() =~= s@.subrange(a as int, b - 1));
        }
        b = b - 1;
    }
    proof {
        if b > a {
            assert(trim_back(s@.subrange(a as int, b as int)) == s@.subrange(a as int, b as int));
        } else {
            assert(s@.subrange(a as int, b as int) =~= Seq::<char>::empty());
        }
        assert(trimmed(s@) == s@.subrange(a as int, b as int));
    }
    let mut r: Vec<char> = Vec::new();
    let mut j: usize = a;
    while j < b
        invariant
            a <= j <= b <= s@.len(),
            r@ =~= s@.subrange(a as int, j as int),
            trimmed(s@) == s@.subrange(a as int, b as int),
        decreases b - j,
    {
        r.push(s[j]);
        proof {
            assert(r@ =~= s@.subrange(a as int, j + 1));
        }
        j = j + 1;
    }
    r
}

/// Whether the character is stripped by trimming; the executable twin of
/// `is_trim_char`.
pub fn is_trim(c: char) -> (r: bool)
    ensures
        r == is_trim_char(c),
{
    c == ' ' || c == '\t' || c == '\n' || c == '\r'
}

/// The surface form of one tokenizer output line: the text before the first
/// field separator, a tab or a comma. The remaining fields carry the
/// part-of-speech tags, which scoring does not read.
pub open spec fn surface_of(line: Seq<char>) -> Seq<char> {
    split_at(line, '\t', ',')[0]
}

/// Extracts the surface form of one tokenizer output line.
pub fn surface_form(line: &Vec<char>) -> (r: Vec<char>)
    ensures
        r@ == surface_of(line@),
{
    let mut fields = split_chars(line, '\t', ',');
    proof {
        lemma_split_at_nonempty(line@, '\t', ',');
        assert(fields@.map_values(|p: Vec<char>| p@).len() == fields@.len());
    }
    let first = fields.remove(0);
    proof {
        assert(first@ == split_at(line@, '\t', ',')[0]);
    }
    first
}

/// How many of the given segments count as recognizable words: those at
/// least `MIN_SEGMENT_CHARS` characters long.
pub open spec fn recognizable_count(segs: Seq<Seq<char>>) -> nat
    decreases segs.len(),
{
    if segs.len() == 0 {
        0
    } else {
        recognizable_count(segs.drop_last()) + if segs.last().len() >= MIN_SEGMENT_CHARS {
            1nat
        } else {
            0nat
        }
    }
}

/// Counts the segments that pass the minimum-length filter.
pub fn count_recognizable(segments: &Vec<Vec<char>>) -> (r: usize)
    ensures
        r == recognizable_count(segments@.map_values(|v: Vec<char>| v@)),
{
    let ghost segs = segments@.map_values(|v: Vec<char>| v@);
    let mut count: usize = 0;
    let mut i: usize = 0;
    while i < segments.len()
        invariant
            i <= segments@.len(),
            segs == segments@.map_values(|v: Vec<char>| v@),
            count <= i,
            count == recognizable_count(segs.take(i as int)),
        decreases segments@.len() - i,
    {
        proof {
            assert(segs.take(i + 1).drop_last() =~= segs.take(i as int));
            assert(segs.take(i + 1).last() == segments@[i as int]@);
        }
        if segments[i].len() >= MIN_SEGMENT_CHARS {
            count = count + 1;
        }
        i = i + 1;
    }
    proof {
        assert(segs.take(segs.len() as int) =~= segs);
    }
    count
}

/// The score of one piece of tokenizer output: the number of recognizable
/// word segments in it. The output is trimmed and cut into lines; the final
/// line is the analyzer's end marker and is never counted; every other line
/// contributes one point when its surface form has at least
/// `MIN_SEGMENT_CHARS` characters.
pub open spec fn parse_output_score(text: Seq<char>) -> nat {
    let lines = split_at(trimmed(text), '\n', '\n');
    recognizable_count(lines.drop_last().map_values(|l: Seq<char>| surface_of(l)))
}

/// Scores one candidate's tokenizer output, following the
/// recognizable-word policy.
pub fn score_parse_output(text: &Vec<char>) -> (r: usize)
    ensures
        r == parse_output_score(text@),
{
    let t = trim_chars(text);
    let lines = split_chars(&t, '\n', '\n');
    proof {
        lemma_split_at_nonempty(t@, '\n', '\n');
        assert(lines@.map_values(|p: Vec<char>| p@).len() == lines@.len());
    }
    let ghost surfaces = split_at(trimmed(text@), '\n', '\n').drop_last().map_values(
        |l: Seq<char>| surface_of(l));
    let n = lines.len() - 1;
    let mut count: usize = 0;
    let mut i: usize = 0;
    while i < n
        invariant
            i <= n,
            n == lines@.len() - 1,
            lines@.map_values(|p: Vec<char>| p@) == split_at(trimmed(text@), '\n', '\n'),
            surfaces == split_at(trimmed(text@), '\n', '\n').drop_last().map_values(
                |l: Seq<char>| surface_of(l)),
            count <= i,
            count == recognizable_count(surfaces.take(i as int)),
        decreases n - i,
    {
        let s = surface_form(&lines[i]);
        proof {
            assert(lines@[i as int]@ == split_at(trimmed(text@), '\n', '\n')[i as int]);
            assert(surfaces.take(i + 1).drop_last() =~= surfaces.take(i as int));
            assert(surfaces.take(i + 1).last() == surfaces[i as int]);
            assert(surfaces[i as int] == surface_of(lines@[i as int]@));
        }
        if s.len() >= MIN_SEGMENT_CHARS {
            count = count + 1;
        }
        i = i + 1;
    }
    proof {
        assert(surfaces.take(surfaces.len() as int) =~= surfaces);
        assert(surfaces.len() == n);
    }
    count
}

/// The characters of a string, as a vector.
pub fn chars_of(s: &str) -> (r: Vec<char>)
    ensures
        r@ == s@,
{
    let len = s.unicode_len();
    let mut r: Vec<char> = Vec::new();
    let mut i: usize = 0;
    while i < len
        invariant
            i <= s@.len(),
            len == s@.len(),
            r@ =~= s@.subrange(0, i as int),
        decreases len - i,
    {
        r.push(s.get_char(i));
        proof {
            assert(r@ =~= s@.subrange(0, i + 1));
        }
        i = i + 1;
    }
    proof {
        assert(r@ =~= s@);
    }
    r
}

/// Scores one candidate's tokenizer output handed over as a string.
pub fn score_text(text: &str) -> (r: usize)
    ensures
        r == parse_output_score(text@),
{
    let chars = chars_of(text);
    score_parse_output(&chars)
}

} // verus!
