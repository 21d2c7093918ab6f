//! Splitting a free-form command line into an executable and its arguments.
//!
//! Tokens are separated by spaces and tabs outside double quotes; the quote
//! characters themselves are dropped. The executable is everything before the
//! first token that looks like a flag (one starting with `-` or `/`). This is a
//! heuristic: an executable whose name starts with `-` or `/` is read as an
//! argument, and an unquoted executable with spaces and no flag after it is cut
//! at its first space.
use vstd::prelude::*;
use vstd::string::*;

verus! {

/// The Unicode `White_Space` property, the set of characters that `str::trim` removes.
pub open spec fn is_white_space(c: char) -> bool {
    let u = c as u32;
    (0x9 <= u <= 0xd) || u == 0x20 || u == 0x85 || u == 0xa0 || u == 0x1680 || (0x2000 <= u
        <= 0x200a) || u == 0x2028 || u == 0x2029 || u == 0x202f || u == 0x205f || u == 0x3000
}

pub open spec fn trim_start(s: Seq<char>) -> Seq<char>
    decreases s.len(),
{
    if s.len() > 0 && is_white_space(s[0]) {
        trim_start(s.drop_first())
    } else {
        s
    }
}

pub open spec fn trim_end(s: Seq<char>) -> Seq<char>
    decreases s.len(),
{
    if s.len() > 0 && is_white_space(s.last()) {
        trim_end(s.drop_last())
    } else {
        s
    }
}

/// `s` without its leading and trailing white space.
pub open spec fn trimmed(s: Seq<char>) -> Seq<char> {
    trim_end(trim_start(s))
}

/// Relies on `str::trim`: the slice without leading and trailing `White_Space` characters.
#[verifier::external_body]
fn trim(s: &str) -> (r: &str)
    ensures
        r@ == trimmed(s@),
{
    s.trim()
}

/// Relies on `String`'s `FromIterator<&char>`: the string of the given characters, in order.
#[verifier::external_body]
fn string_from_chars(v: &Vec<char>) -> (r: String)
    ensures
        r@ == v@,
{
    v.iter().collect()
}

/// The characters of each string of a sequence.
pub open spec fn strs(v: Seq<String>) -> Seq<Seq<char>> {
    v.map_values(|s: String| s@)
}

/// A character that separates tokens when it stands outside quotes.
pub open spec fn is_separator(c: char) -> bool {
    c == ' ' || c == '\t'
}

/// Where the tokenizer stands after reading part of its input.
pub struct ScanState {
    pub tokens: Seq<Seq<char>>,
    pub current: Seq<char>,
    pub quoted: bool,
}

pub open spec fn initial_scan() -> ScanState {
    ScanState { tokens: Seq::empty(), current: Seq::empty(), quoted: false }
}

/// Closes the token being read, if it holds anything.
pub open spec fn flush(st: ScanState) -> ScanState {
    if st.current.len() > 0 {
        ScanState { tokens: st.tokens.push(st.current), current: Seq::empty(), quoted: st.quoted }
    } else {
        st
    }
}

pub open spec fn scan_step(st: ScanState, c: char) -> ScanState {
    if c == '"' {
        ScanState { tokens: st.tokens, current: st.current, quoted: !st.quoted }
    } else if is_separator(c) && !st.quoted {
        flush(st)
    } else {
        ScanState { tokens: st.tokens, current: st.current.push(c), quoted: st.quoted }
    }
}

pub open spec fn scan_from(st: ScanState, s: Seq<char>) -> ScanState
    decreases s.len(),
{
    if s.len() == 0 {
        st
    } else {
        scan_step(scan_from(st, s.drop_last()), s.last())
    }
}

/// The tokens of an input that has already been trimmed.
pub open spec fn scanned_tokens(s: Seq<char>) -> Seq<Seq<char>> {
    flush(scan_from(initial_scan(), s)).tokens
}

/// The tokens of a command line.
pub open spec fn tokens_of(s: Seq<char>) -> Seq<Seq<char>> {
    scanned_tokens(trimmed(s))
}

/// Splits `cmd` into tokens: spaces and tabs outside double quotes separate them,
/// runs of them count as one, and quote characters are removed. An unmatched quote
/// keeps the rest of the input quoted.
pub fn tokenize(cmd: &str) -> (tokens: Vec<String>)
    ensures
        strs(tokens@) == tokens_of(cmd@),
{
    let t = trim(cmd);
    let n = t.unicode_len();
    let mut tokens: Vec<String> = Vec::new();
    let mut current: Vec<char> = Vec::new();
    let mut quoted = false;
    let mut i: usize = 0;
    proof {
        assert(strs(tokens@) =~= Seq::<Seq<char>>::empty());
        assert(t@.take(0).len() == 0);
    }
    while i < n
        invariant
            n == t@.len(),
            t@ == trimmed(cmd@),
            0 <= i <= n,
            (ScanState { tokens: strs(tokens@), current: current@, quoted })
                == scan_from(initial_scan(), t@.take(i as int)),
        decreases n - i,
    {
        let c = t.get_char(i);
        proof {
            assert(t@.take(i + 1).drop_last() =~= t@.take(i as int));
        }
        if c == '"' {
            quoted = !quoted;
        } else if (c == ' ' || c == '\t') && !quoted {
            if current.len() > 0 {
                let token = string_from_chars(&current);
                let ghost before = tokens@;
                tokens.push(token);
                proof {
                    assert(strs(tokens@) =~= strs(before).push(current@));
                }
                current = Vec::new();
            }
        } else {
            current.push(c);
        }
        i += 1;
    }
    proof {
        assert(t@.take(n as int) =~= t@);
    }
    if current.len() > 0 {
        let token = string_from_chars(&current);
        let ghost before = tokens@;
        tokens.push(token);
        proof {
            assert(strs(tokens@) =~= strs(before).push(current@));
        }
    }
    tokens
}

/// A token that marks the start of the arguments.
pub open spec fn is_flag(t: Seq<char>) -> bool {
    t.len() > 0 && (t[0] == '-' || t[0] == '/')
}

/// How many tokens stand before the first flag (all of them if there is none).
pub open spec fn leading_non_flags(ts: Seq<Seq<char>>) -> nat
    decreases ts.len(),
{
    if ts.len() == 0 || is_flag(ts[0]) {
        0
    } else {
        1 + leading_non_flags(ts.drop_first())
    }
}

/// The words of `ts` joined by single spaces.
pub open spec fn join_words(ts: Seq<Seq<char>>) -> Seq<char>
    decreases ts.len(),
{
    if ts.len() == 0 {
        Seq::empty()
    } else if ts.len() == 1 {
        ts[0]
    } else {
        join_words(ts.drop_last()) + seq![' '] + ts.last()
    }
}

/// The executable and the arguments that a token sequence stands for.
pub open spec fn split_of(ts: Seq<Seq<char>>) -> (Seq<char>, Seq<Seq<char>>) {
    let k = leading_non_flags(ts);
    if k < ts.len() {
        (join_words(ts.take(k as int)), ts.skip(k as int))
    } else if ts.len() == 0 {
        (Seq::empty(), Seq::empty())
    } else {
        (ts[0], ts.skip(1))
    }
}

/// The executable and the arguments of a command line.
pub open spec fn parsed_command(s: Seq<char>) -> (Seq<char>, Seq<Seq<char>>) {
    split_of(tokens_of(s))
}

proof fn lemma_leading_non_flags(ts: Seq<Seq<char>>, i: int)
    requires
        0 <= i <= ts.len(),
        forall|j: int| 0 <= j < i ==> !is_flag(#[trigger] ts[j]),
        i == ts.len() || is_flag(ts[i]),
    ensures
        leading_non_flags(ts) == i,
    decreases i,
{
    if i > 0 {
        assert(!is_flag(ts[0]));
        let rest = ts.drop_first();
        assert forall|j: int| 0 <= j < i - 1 implies !is_flag(#[trigger] rest[j]) by {
            assert(rest[j] == ts[j + 1]);
        }
        lemma_leading_non_flags(rest, i - 1);
    }
}

fn starts_with_flag_mark(t: &String) -> (r: bool)
    ensures
        r == is_flag(t@),
{
    let s = t.as_str();
    if s.unicode_len() == 0 {
        false
    } else {
        let c = s.get_char(0);
        c == '-' || c == '/'
    }
}

/// Splits tokens into an executable and its arguments: the tokens before the first
/// one that starts with `-` or `/`, joined by spaces, are the executable, and the rest
/// are the arguments. With no such token, the first token is the executable.
pub fn split_command(tokens: &Vec<String>) -> (r: (String, Vec<String>))
    ensures
        (r.0@, strs(r.1@)) == split_of(strs(tokens@)),
{
    let ghost ts = strs(tokens@);
    let n = tokens.len();
    let mut k: usize = 0;
    while k < n && !starts_with_flag_mark(&tokens[k])
        invariant
            n == tokens@.len(),
            ts == strs(tokens@),
            0 <= k <= n,
            forall|j: int| 0 <= j < k ==> !is_flag(#[trigger] ts[j]),
        decreases n - k,
    {
        k += 1;
    }
    proof {
        lemma_leading_non_flags(ts, k as int);
    }
    let start: usize = if k < n {
        k
    } else if n == 0 {
        0
    } else {
        1
    };
    let mut executable = String::new();
    if k < n {
        let mut j: usize = 0;
        while j < k
            invariant
                n == tokens@.len(),
                ts == strs(tokens@),
                0 <= j <= k < n,
                executable@ == join_words(ts.take(j as int)),
            decreases k - j,
        {
            if j > 0 {
                executable.append(" ");
            }
            executable.append(tokens[j].as_str());
            proof {
                reveal_strlit(" ");
                assert(ts.take(j + 1).drop_last() =~= ts.take(j as int));
                if j == 0 {
                    assert(executable@ =~= ts.take(1)[0]);
                } else {
                    assert(executable@ =~= join_words(ts.take(j as int)) + seq![' '] + ts[j as int]);
                }
            }
            j += 1;
        }
    } else if n > 0 {
        executable = tokens[0].clone();
    }
    let mut args: Vec<String> = Vec::new();
    let mut j: usize = start;
    while j < n
        invariant
            n == tokens@.len(),
            ts == strs(tokens@),
            start <= j <= n,
            strs(args@) == ts.subrange(start as int, j as int),
        decreases n - j,
    {
        let ghost before = args@;
        args.push(tokens[j].clone());
        proof {
            assert(strs(args@) =~= strs(before).push(ts[j as int]));
            assert(ts.subrange(start as int, j + 1) =~= ts.subrange(start as int, j as int).push(
                ts[j as int],
            ));
        }
        j += 1;
    }
    proof {
        assert(ts.subrange(start as int, n as int) =~= ts.skip(start as int));
        if k >= n && n == 0 {
            assert(ts.skip(0) =~= Seq::<Seq<char>>::empty());
        }
    }
    (executable, args)
}

/// Parses a command line into the executable and its arguments, as `tokenize` and
/// `split_command` do in turn. An empty or blank command gives an empty executable and
/// no arguments.
pub fn parse_command_string(cmd: &str) -> (r: (String, Vec<String>))
    ensures
        (r.0@, strs(r.1@)) == parsed_command(cmd@),
{
    let tokens = tokenize(cmd);
    split_command(&tokens)
}

/// The number of double quotes in `s`.
pub open spec fn quote_count(s: Seq<char>) -> nat
    decreases s.len(),
{
    if s.len() == 0 {
        0
    } else {
        quote_count(s.drop_last()) + if s.last() == '"' {
            1nat
        } else {
            0nat
        }
    }
}

/// `s` holds a character that is not white space.
pub open spec fn has_non_white_space(s: Seq<char>) -> bool {
    exists|k: int| 0 <= k < s.len() && !is_white_space(#[trigger] s[k])
}

proof fn lemma_quote_count_append(x: Seq<char>, y: Seq<char>)
    ensures
        quote_count(x + y) == quote_count(x) + quote_count(y),
    decreases y.len(),
{
    if y.len() == 0 {
        assert(x + y =~= x);
    } else {
        assert((x + y).drop_last() =~= x + y.drop_last());
        lemma_quote_count_append(x, y.drop_last());
    }
}

proof fn lemma_trim_start(a: Seq<char>, x: Seq<char>)
    requires
        has_non_white_space(a),
    ensures
        trim_start(a + x) == trim_start(a) + x,
        trim_start(a).len() > 0,
        trim_start(a).last() == a.last(),
        quote_count(trim_start(a)) == quote_count(a),
    decreases a.len(),
{
    if is_white_space(a[0]) {
        let k = choose|k: int| 0 <= k < a.len() && !is_white_space(#[trigger] a[k]);
        assert(a.drop_first()[k - 1] == a[k]);
        assert((a + x).drop_first() =~= a.drop_first() + x);
        lemma_trim_start(a.drop_first(), x);
        assert(a =~= seq![a[0]] + a.drop_first());
        lemma_quote_count_append(seq![a[0]], a.drop_first());
        let one = seq![a[0]];
        assert(one.drop_last() =~= Seq::<char>::empty());
        assert(quote_count(one.drop_last()) == 0);
        assert(one.last() != '"');
        assert(quote_count(one) == 0);
    }
}

proof fn lemma_trim_end(x: Seq<char>, b: Seq<char>)
    requires
        has_non_white_space(b),
    ensures
        trim_end(x + b) == x + trim_end(b),
        trim_end(b).len() > 0,
        trim_end(b)[0] == b[0],
    decreases b.len(),
{
    if is_white_space(b.last()) {
        let k = choose|k: int| 0 <= k < b.len() && !is_white_space(#[trigger] b[k]);
        assert(b.drop_last()[k] == b[k]);
        assert((x + b).drop_last() =~= x + b.drop_last());
        lemma_trim_end(x, b.drop_last());
    }
}

proof fn lemma_scan_append(st: ScanState, x: Seq<char>, y: Seq<char>)
    ensures
        scan_from(st, x + y) == scan_from(scan_from(st, x), y),
    decreases y.len(),
{
    if y.len() == 0 {
        assert(x + y =~= x);
    } else {
        assert((x + y).drop_last() =~= x + y.drop_last());
        lemma_scan_append(st, x, y.drop_last());
    }
}

proof fn lemma_scan_quoted(s: Seq<char>)
    ensures
        scan_from(initial_scan(), s).quoted == (quote_count(s) % 2 == 1),
    decreases s.len(),
{
    if s.len() > 0 {
        lemma_scan_quoted(s.drop_last());
    }
}

proof fn lemma_scan_separators(st: ScanState, w: Seq<char>)
    requires
        !st.quoted,
        w.len() > 0,
        forall|k: int| 0 <= k < w.len() ==> is_separator(#[trigger] w[k]),
    ensures
        scan_from(st, w) == flush(st),
    decreases w.len(),
{
    if w.len() > 1 {
        let front = w.drop_last();
        assert forall|k: int| 0 <= k < front.len() implies is_separator(#[trigger] front[k]) by {
            assert(front[k] == w[k]);
        }
        lemma_scan_separators(st, front);
        assert(is_separator(w.last()));
        assert(flush(flush(st)) == flush(st));
    } else {
        assert(w.drop_last().len() == 0);
        assert(scan_from(st, w.drop_last()) == st);
        assert(is_separator(w.last()));
    }
}

/// Extra spaces and tabs inserted between two tokens change nothing: where `a` ends
/// outside quotes, both `a` and `b` hold more than white space, and a separator already
/// stands at the junction, `a + w + b` has the tokens of `a + b`.
pub proof fn lemma_extra_separators(a: Seq<char>, w: Seq<char>, b: Seq<char>)
    requires
        quote_count(a) % 2 == 0,
        has_non_white_space(a),
        has_non_white_space(b),
        forall|k: int| 0 <= k < w.len() ==> is_separator(#[trigger] w[k]),
        is_separator(a.last()) || (b.len() > 0 && is_separator(b[0])),
    ensures
        tokens_of(a + w + b) == tokens_of(a + b),
{
    let ta = trim_start(a);
    let tb = trim_end(b);
    lemma_trim_start(a, w + b);
    lemma_trim_start(a, b);
    assert(a + w + b =~= a + (w + b));
    assert(ta + (w + b) =~= (ta + w) + b);
    lemma_trim_end(ta + w, b);
    lemma_trim_end(ta, b);
    assert(trimmed(a + w + b) =~= ta + (w + tb));
    assert(trimmed(a + b) == ta + tb);
    lemma_scan_append(initial_scan(), ta, w + tb);
    lemma_scan_append(initial_scan(), ta, tb);
    let st = scan_from(initial_scan(), ta);
    lemma_scan_quoted(ta);
    if w.len() > 0 {
        lemma_scan_append(st, w, tb);
        if is_separator(a.last()) {
            let t0 = ta.drop_last();
            assert(ta =~= t0 + seq![ta.last()]);
            lemma_quote_count_append(t0, seq![ta.last()]);
            assert(seq![ta.last()].drop_last() =~= Seq::<char>::empty());
            lemma_scan_quoted(t0);
            lemma_scan_separators(st, w);
        } else {
            let rest = tb.drop_first();
            assert(tb =~= seq![tb[0]] + rest);
            assert(w + tb =~= (w + seq![tb[0]]) + rest);
            lemma_scan_append(st, w + seq![tb[0]], rest);
            lemma_scan_append(st, seq![tb[0]], rest);
            lemma_scan_separators(st, w + seq![tb[0]]);
            lemma_scan_separators(st, seq![tb[0]]);
        }
    } else {
        assert(w + tb =~= tb);
    }
}

/// A blank command line has no tokens, and no tokens give an empty executable and no
/// arguments.
pub proof fn lemma_blank_command(s: Seq<char>)
    requires
        forall|k: int| 0 <= k < s.len() ==> is_white_space(#[trigger] s[k]),
    ensures
        tokens_of(s) == Seq::<Seq<char>>::empty(),
        parsed_command(s) == (Seq::<char>::empty(), Seq::<Seq<char>>::empty()),
    decreases s.len(),
{
    if s.len() > 0 {
        let rest = s.drop_first();
        assert forall|k: int| 0 <= k < rest.len() implies is_white_space(#[trigger] rest[k]) by {
            assert(rest[k] == s[k + 1]);
        }
        lemma_blank_command(rest);
        assert(trim_start(s) == trim_start(rest));
    } else {
        assert(scan_from(initial_scan(), s) == initial_scan());
    }
}

} // verus!
