//! Character-level text helpers shared by the generators.

use vstd::prelude::*;

verus! {

/// The views of a list of strings.
pub open spec fn texts(v: Seq<String>) -> Seq<Seq<char>> {
    v.map_values(|s: String| s@)
}

/// A run of `n` space characters.
pub open spec fn spaces(n: nat) -> Seq<char> {
    Seq::new(n, |i: int| ' ')
}

/// A line indented by `indent` spaces and closed by a line feed.
pub open spec fn indented_line(indent: nat, line: Seq<char>) -> Seq<char> {
    spaces(indent) + line + seq!['\n']
}

/// `String::push` from the standard library: appends one character to the end
/// of the string.
#[verifier::external_body]
pub(crate) fn push_char(s: &mut String, c: char)
    ensures
        final(s)@ == old(s)@.push(c),
{
    s.push(c);
}

/// Prefixes `line` with `indent` spaces and ends it with a line feed.
pub fn indent_line(indent: usize, line: &str) -> (out: String)
    ensures
        out@ == indented_line(indent as nat, line@),
{
    let mut chars: Vec<char> = Vec::new();
    push_space_chars(&mut chars, indent);
    append_chars(&mut chars, &to_chars(line));
    chars.push('\n');
    assert(chars@ =~= indented_line(indent as nat, line@));
    from_chars(&chars)
}

/// The characters of `s`, in order.
pub fn to_chars(s: &str) -> (out: Vec<char>)
    ensures
        out@ == s@,
{
    let mut out: Vec<char> = Vec::new();
    for c in it: s.chars()
        invariant
            it.seq() == s@,
            out@ == it.seq().take(it.index()),
    {
        out.push(c);
        assert(out@ =~= it.seq().take(it.index() + 1));
    }
    assert(s@.take(s@.len() as int) =~= s@);
    out
}

/// The string made of the characters of `chars`, in order.
pub fn from_chars(chars: &Vec<char>) -> (out: String)
    ensures
        out@ == chars@,
{
    let mut out = String::new();
    let mut i: usize = 0;
    while i < chars.len()
        invariant
            i <= chars.len(),
            out@ == chars@.take(i as int),
        decreases chars.len() - i,
    {
        push_char(&mut out, chars[i]);
        i = i + 1;
        assert(out@ =~= chars@.take(i as int));
    }
    assert(chars@.take(chars.len() as int) =~= chars@);
    out
}

/// Whether `c` has the Unicode property White_Space: the controls from
/// tab to carriage return, the space, next line, the no-break space, the
/// Ogham space mark, the spaces from en quad to hair space, the line and
/// paragraph separators, the narrow no-break space, the medium mathematical
/// space and the ideographic space.
pub open spec fn white_space(c: char) -> bool {
    ||| '\u{9}' <= c && c <= '\u{d}'
    ||| c == ' '
    ||| c == '\u{85}'
    ||| c == '\u{a0}'
    ||| c == '\u{1680}'
    ||| '\u{2000}' <= c && c <= '\u{200a}'
    ||| c == '\u{2028}'
    ||| c == '\u{2029}'
    ||| c == '\u{202f}'
    ||| c == '\u{205f}'
    ||| c == '\u{3000}'
}

/// `char::is_whitespace` from the standard library: whether the character has
/// the Unicode property White_Space. The contract lists the characters that
/// have it.
#[verifier::external_body]
pub(crate) fn is_whitespace(c: char) -> (r: bool)
    ensures
        r == white_space(c),
{
    c.is_whitespace()
}

/// `s` without its leading white space.
pub open spec fn trim_start(s: Seq<char>) -> Seq<char>
    decreases s.len(),
{
    if s.len() > 0 && white_space(s[0]) {
        trim_start(s.drop_first())
    } else {
        s
    }
}

/// `s` without its trailing white space.
pub open spec fn trim_end(s: Seq<char>) -> Seq<char>
    decreases s.len(),
{
    if s.len() > 0 && white_space(s.last()) {
        trim_end(s.drop_last())
    } else {
        s
    }
}

/// `s` without leading and trailing white space.
pub open spec fn trimmed(s: Seq<char>) -> Seq<char> {
    trim_end(trim_start(s))
}

/// What is left of `s` without its leading white space is the end of `s`,
/// and starts with something else.
pub proof fn lemma_trim_start_shape(s: Seq<char>)
    ensures
        trim_start(s).len() <= s.len(),
        trim_start(s) == s.skip(s.len() - trim_start(s).len()),
        trim_start(s).len() > 0 ==> !white_space(trim_start(s)[0]),
    decreases s.len(),
{
    if s.len() > 0 && white_space(s[0]) {
        lemma_trim_start_shape(s.drop_first());
        let k = s.drop_first().len() - trim_start(s).len();
        assert(s.drop_first().skip(k) =~= s.skip(k + 1));
    } else {
        assert(s.skip(0) =~= s);
    }
}

/// What is left of `s` without its trailing white space is the start of
/// `s`, and ends with something else.
pub proof fn lemma_trim_end_shape(s: Seq<char>)
    ensures
        trim_end(s).len() <= s.len(),
        trim_end(s) == s.take(trim_end(s).len() as int),
        trim_end(s).len() > 0 ==> !white_space(trim_end(s).last()),
    decreases s.len(),
{
    if s.len() > 0 && white_space(s.last()) {
        lemma_trim_end_shape(s.drop_last());
        assert(s.drop_last().take(trim_end(s).len() as int) =~= s.take(trim_end(s).len() as int));
    } else {
        assert(s.take(s.len() as int) =~= s);
    }
}

/// Trimmed text neither starts nor ends with white space.
pub proof fn lemma_trimmed_has_clean_ends(s: Seq<char>)
    ensures
        trimmed(s).len() > 0 ==> !white_space(trimmed(s)[0]) && !white_space(trimmed(s).last()),
{
    lemma_trim_start_shape(s);
    lemma_trim_end_shape(trim_start(s));
}

/// Trimming twice is trimming once.
pub proof fn lemma_trimmed_is_idempotent(s: Seq<char>)
    ensures
        trimmed(trimmed(s)) == trimmed(s),
{
    lemma_trimmed_has_clean_ends(s);
}

/// Spaces in front of text that starts with something else are all that
/// trimming the start removes.
pub proof fn lemma_trim_start_of_indented(n: nat, t: Seq<char>)
    requires
        t.len() > 0,
        !white_space(t[0]),
    ensures
        trim_start(spaces(n) + t) == t,
    decreases n,
{
    if n == 0 {
        assert(spaces(0) + t =~= t);
    } else {
        assert((spaces(n) + t).drop_first() =~= spaces((n - 1) as nat) + t);
        lemma_trim_start_of_indented((n - 1) as nat, t);
    }
}

/// A line feed behind text that ends with something else is all that
/// trimming the end removes.
pub proof fn lemma_trim_end_of_closed(t: Seq<char>)
    requires
        t.len() > 0,
        !white_space(t.last()),
    ensures
        trim_end(t.push('\n')) == t,
{
    assert(trim_end(t) == t);
    assert(white_space('\n'));
    assert(t.push('\n').drop_last() =~= t);
}

/// Placing indents behind line feeds changes neither how text starts nor
/// how it ends, unless that is with a line feed.
pub proof fn lemma_indent_breaks_ends(indent: nat, s: Seq<char>)
    requires
        s.len() > 0,
    ensures
        indent_breaks(indent, s).len() >= s.len(),
        s[0] != '\n' ==> indent_breaks(indent, s)[0] == s[0],
        s.last() != '\n' ==> indent_breaks(indent, s).last() == s.last(),
    decreases s.len(),
{
    if s.len() == 1 {
        assert(s.drop_last() =~= Seq::<char>::empty());
        assert(indent_breaks(indent, s.drop_last()) =~= Seq::<char>::empty());
    } else {
        lemma_indent_breaks_ends(indent, s.drop_last());
    }
}

/// Copies `v[from..to]` into a new vector.
pub fn copy_range(v: &Vec<char>, from: usize, to: usize) -> (out: Vec<char>)
    requires
        from <= to <= v.len(),
    ensures
        out@ == v@.subrange(from as int, to as int),
{
    let mut out: Vec<char> = Vec::new();
    let mut k: usize = from;
    while k < to
        invariant
            from <= k <= to <= v.len(),
            out@ == v@.subrange(from as int, k as int),
        decreases to - k,
    {
        out.push(v[k]);
        k = k + 1;
        assert(out@ =~= v@.subrange(from as int, k as int));
    }
    out
}

/// Appends the characters of `more` to `out`.
pub fn append_chars(out: &mut Vec<char>, more: &Vec<char>)
    ensures
        final(out)@ == old(out)@ + more@,
{
    let mut i: usize = 0;
    assert(out@ =~= old(out)@ + more@.take(0));
    while i < more.len()
        invariant
            i <= more.len(),
            out@ == old(out)@ + more@.take(i as int),
        decreases more.len() - i,
    {
        out.push(more[i]);
        i = i + 1;
        assert(out@ =~= old(out)@ + more@.take(i as int));
    }
    assert(more@.take(more.len() as int) =~= more@);
}

/// Whether `v` starts with `prefix`.
pub fn has_prefix(v: &Vec<char>, prefix: &Vec<char>) -> (r: bool)
    ensures
        r == prefix@.is_prefix_of(v@),
{
    let m = prefix.len();
    if v.len() < m {
        return false;
    }
    let mut i: usize = 0;
    while i < m
        invariant
            i <= m == prefix.len() <= v.len(),
            v@.take(i as int) == prefix@.take(i as int),
        decreases m - i,
    {
        if v[i] != prefix[i] {
            proof {
                if prefix@.is_prefix_of(v@) {
                    assert(v@.subrange(0, m as int)[i as int] == prefix@[i as int]);
                }
            }
            return false;
        }
        i = i + 1;
        assert(v@.take(i as int) =~= prefix@.take(i as int));
    }
    assert(prefix@.take(m as int) =~= prefix@);
    assert(v@.take(m as int) =~= v@.subrange(0, m as int));
    true
}

/// The place of the last `c` in `s`, or -1 where it has none.
pub open spec fn last_index_of(s: Seq<char>, c: char) -> int
    decreases s.len(),
{
    if s.len() == 0 {
        -1
    } else if s.last() == c {
        s.len() - 1
    } else {
        last_index_of(s.drop_last(), c)
    }
}

/// Finds the last `c` in `v`.
pub fn find_last(v: &Vec<char>, c: char) -> (r: Option<usize>)
    ensures
        match r {
            Some(i) => i < v.len() && last_index_of(v@, c) == i,
            None => last_index_of(v@, c) == -1,
        },
{
    let mut k: usize = v.len();
    assert(v@.take(k as int) =~= v@);
    while k > 0 && v[k - 1] != c
        invariant
            k <= v.len(),
            last_index_of(v@, c) == last_index_of(v@.take(k as int), c),
        decreases k,
    {
        assert(v@.take(k as int).drop_last() =~= v@.take(k - 1));
        k = k - 1;
    }
    if k == 0 {
        None
    } else {
        Some(k - 1)
    }
}

/// Removes leading and trailing white space.
pub fn trim_chars(v: &Vec<char>) -> (out: Vec<char>)
    ensures
        out@ == trimmed(v@),
{
    let n = v.len();
    let mut i: usize = 0;
    assert(v@.skip(0) =~= v@);
    while i < n && is_whitespace(v[i])
        invariant
            i <= n == v.len(),
            trim_start(v@) == trim_start(v@.skip(i as int)),
        decreases n - i,
    {
        assert(v@.skip(i as int).drop_first() =~= v@.skip(i + 1));
        i = i + 1;
    }
    let mut j: usize = n;
    assert(v@.skip(i as int) =~= v@.subrange(i as int, n as int));
    while j > i && is_whitespace(v[j - 1])
        invariant
            i <= j <= n == v.len(),
            trim_start(v@) == v@.skip(i as int),
            trim_end(v@.skip(i as int)) == trim_end(v@.subrange(i as int, j as int)),
        decreases j,
    {
        assert(v@.subrange(i as int, j as int).drop_last() =~= v@.subrange(i as int, j - 1));
        j = j - 1;
    }
    copy_range(v, i, j)
}

/// `s` with `indent` spaces placed behind each of its line feeds.
pub open spec fn indent_breaks(indent: nat, s: Seq<char>) -> Seq<char>
    decreases s.len(),
{
    if s.len() == 0 {
        Seq::empty()
    } else if s.last() == '\n' {
        indent_breaks(indent, s.drop_last()) + seq!['\n'] + spaces(indent)
    } else {
        indent_breaks(indent, s.drop_last()).push(s.last())
    }
}

/// Each line of `s`, the pieces between its line feeds, indented by `indent`
/// spaces and closed by a line feed.
pub open spec fn indent_lines(indent: nat, s: Seq<char>) -> Seq<char> {
    spaces(indent) + indent_breaks(indent, s) + seq!['\n']
}

/// Placing the indent behind line feeds distributes over concatenation.
pub proof fn lemma_indent_breaks_concat(indent: nat, a: Seq<char>, b: Seq<char>)
    ensures
        indent_breaks(indent, a + b) == indent_breaks(indent, a) + indent_breaks(indent, b),
    decreases b.len(),
{
    if b.len() == 0 {
        assert(a + b =~= a);
        assert(indent_breaks(indent, a) + indent_breaks(indent, b) =~= indent_breaks(indent, a));
    } else {
        assert((a + b).drop_last() =~= a + b.drop_last());
        assert((a + b).last() == b.last());
        lemma_indent_breaks_concat(indent, a, b.drop_last());
        if b.last() == '\n' {
            assert(indent_breaks(indent, a + b) =~= indent_breaks(indent, a) + indent_breaks(
                indent,
                b,
            ));
        } else {
            assert(indent_breaks(indent, a + b) =~= indent_breaks(indent, a) + indent_breaks(
                indent,
                b,
            ));
        }
    }
}

/// Text without a line feed is one line: indenting it is `indented_line`.
pub proof fn lemma_indent_lines_single(indent: nat, s: Seq<char>)
    requires
        !s.contains('\n'),
    ensures
        indent_lines(indent, s) == indented_line(indent, s),
{
    lemma_indent_breaks_plain(indent, s);
}

/// Without a line feed there is nothing to place an indent behind.
pub proof fn lemma_indent_breaks_plain(indent: nat, s: Seq<char>)
    requires
        !s.contains('\n'),
    ensures
        indent_breaks(indent, s) == s,
    decreases s.len(),
{
    if s.len() == 0 {
        assert(indent_breaks(indent, s) =~= s);
    } else {
        assert(s.contains(s.last()));
        assert forall|c: char| s.drop_last().contains(c) implies s.contains(c) by {
            let i = choose|i: int| 0 <= i < s.drop_last().len() && s.drop_last()[i] == c;
            assert(s[i] == c);
        }
        lemma_indent_breaks_plain(indent, s.drop_last());
        assert(s.drop_last().push(s.last()) =~= s);
    }
}

/// Indenting text that a line feed parts in two indents each part on its own:
/// the lines of `a + "\n" + b` are those of `a` followed by those of `b`.
pub proof fn lemma_indent_lines_split(indent: nat, a: Seq<char>, b: Seq<char>)
    ensures
        indent_lines(indent, a + seq!['\n'] + b) == indent_lines(indent, a) + indent_lines(
            indent,
            b,
        ),
{
    let nl = seq!['\n'];
    lemma_indent_breaks_concat(indent, a + nl, b);
    lemma_indent_breaks_concat(indent, a, nl);
    assert(nl.drop_last() =~= Seq::<char>::empty());
    assert(indent_breaks(indent, nl) =~= nl + spaces(indent)) by {
        reveal_with_fuel(indent_breaks, 2);
    }
    assert(indent_lines(indent, a + nl + b) =~= indent_lines(indent, a) + indent_lines(indent, b));
}

/// Indents every line of `v` by `indent` spaces and closes each with a line
/// feed.
pub fn indent_chars(indent: usize, v: &Vec<char>) -> (out: Vec<char>)
    ensures
        out@ == indent_lines(indent as nat, v@),
{
    let mut out: Vec<char> = Vec::new();
    push_space_chars(&mut out, indent);
    let ghost head = out@;
    let mut i: usize = 0;
    while i < v.len()
        invariant
            i <= v.len(),
            head == spaces(indent as nat),
            out@ == head + indent_breaks(indent as nat, v@.take(i as int)),
        decreases v.len() - i,
    {
        let c = v[i];
        out.push(c);
        if c == '\n' {
            push_space_chars(&mut out, indent);
        }
        i = i + 1;
        proof {
            assert(v@.take(i as int).drop_last() =~= v@.take(i - 1));
            assert(v@.take(i as int).last() == c);
            assert(out@ =~= head + indent_breaks(indent as nat, v@.take(i as int)));
        }
    }
    assert(v@.take(v.len() as int) =~= v@);
    out.push('\n');
    out
}

/// Appends `n` spaces to `out`.
pub fn push_space_chars(out: &mut Vec<char>, n: usize)
    ensures
        final(out)@ == old(out)@ + spaces(n as nat),
{
    let mut i: usize = 0;
    while i < n
        invariant
            i <= n,
            out@ == old(out)@ + spaces(i as nat),
        decreases n - i,
    {
        out.push(' ');
        i = i + 1;
        assert(out@ =~= old(out)@ + spaces(i as nat));
    }
}

} // verus!
