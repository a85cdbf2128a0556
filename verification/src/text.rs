//! Text handling shared by the command builders and the output readers:
//! white space, tokens, trimming, decimal numbers.
use vstd::prelude::*;
use vstd::string::*;

verus! {

/// The characters that separate tokens: the Unicode `White_Space` set.
pub open spec fn is_space(c: char) -> bool {
    let n = c as u32;
    ||| 0x09 <= n <= 0x0d
    ||| n == 0x20
    ||| n == 0x85
    ||| n == 0xa0
    ||| n == 0x1680
    ||| 0x2000 <= n <= 0x200a
    ||| n == 0x2028
    ||| n == 0x2029
    ||| n == 0x202f
    ||| n == 0x205f
    ||| n == 0x3000
}

/// The tokens of `s`: its maximal runs of characters that are not white
/// space, from left to right. Defined by reading `s` one character at a time.
pub open spec fn tokens(s: Seq<char>) -> Seq<Seq<char>>
    decreases s.len(),
{
    if s.len() == 0 {
        Seq::empty()
    } else {
        let before = s.drop_last();
        let c = s.last();
        if is_space(c) {
            tokens(before)
        } else if before.len() > 0 && !is_space(before.last()) {
            tokens(before).drop_last().push(tokens(before).last().push(c))
        } else {
            tokens(before).push(seq![c])
        }
    }
}

/// `s` without the white space at its two ends.
pub open spec fn trimmed(s: Seq<char>) -> Seq<char>
    decreases s.len(),
{
    if s.len() == 0 {
        s
    } else if is_space(s.last()) {
        trimmed(s.drop_last())
    } else {
        trimmed_start(s)
    }
}

/// `s` without the white space at its start.
pub open spec fn trimmed_start(s: Seq<char>) -> Seq<char>
    decreases s.len(),
{
    if s.len() == 0 {
        s
    } else if is_space(s[0]) {
        trimmed_start(s.drop_first())
    } else {
        s
    }
}

/// The text of one decimal digit.
pub open spec fn digit(d: nat) -> Seq<char> {
    if d == 0 {
        "0"@
    } else if d == 1 {
        "1"@
    } else if d == 2 {
        "2"@
    } else if d == 3 {
        "3"@
    } else if d == 4 {
        "4"@
    } else if d == 5 {
        "5"@
    } else if d == 6 {
        "6"@
    } else if d == 7 {
        "7"@
    } else if d == 8 {
        "8"@
    } else {
        "9"@
    }
}

/// `n` in decimal, without sign or leading zeros.
pub open spec fn decimal(n: nat) -> Seq<char>
    decreases n,
{
    if n < 10 {
        digit(n)
    } else {
        decimal(n / 10) + digit(n % 10)
    }
}

/// The views of a sequence of strings.
pub open spec fn texts(v: Seq<String>) -> Seq<Seq<char>> {
    Seq::new(v.len(), |i: int| v[i]@)
}

/// Whether `c` separates tokens.
pub fn char_is_space(c: char) -> (r: bool)
    ensures
        r == is_space(c),
{
    let n: u32 = c as u32;
    (0x09 <= n && n <= 0x0d) || n == 0x20 || n == 0x85 || n == 0xa0 || n == 0x1680 || (0x2000 <= n
        && n <= 0x200a) || n == 0x2028 || n == 0x2029 || n == 0x202f || n == 0x205f || n == 0x3000
}

/// Whether two strings hold the same characters.
pub fn same_text(a: &str, b: &str) -> (r: bool)
    ensures
        r == (a@ == b@),
{
    let x = String::from_str(a);
    let y = String::from_str(b);
    x == y
}

/// A copy of a list of strings.
pub fn copy_texts(v: &Vec<String>) -> (r: Vec<String>)
    ensures
        texts(r@) == texts(v@),
{
    let mut r: Vec<String> = Vec::new();
    let mut i: usize = 0;
    while i < v.len()
        invariant
            i <= v.len(),
            r.len() == i,
            forall|k: int| 0 <= k < i ==> r[k]@ == v[k]@,
        decreases v.len() - i,
    {
        r.push(v[i].clone());
        i += 1;
    }
    assert(texts(r@) =~= texts(v@));
    r
}

/// Splits `s` at white space.
pub fn split_tokens(s: &str) -> (r: Vec<String>)
    ensures
        texts(r@) == tokens(s@),
{
    let n = s.unicode_len();
    let mut out: Vec<String> = Vec::new();
    let mut start: usize = 0;
    let mut inside = false;
    let mut i: usize = 0;
    assert(s@.take(0) =~= Seq::<char>::empty());
    while i < n
        invariant
            n == s@.len(),
            i <= n,
            inside ==> start < i && !is_space(s@[i - 1]),
            !inside && i > 0 ==> is_space(s@[i - 1]),
            tokens(s@.take(i as int)) == if inside {
                texts(out@).push(s@.subrange(start as int, i as int))
            } else {
                texts(out@)
            },
        decreases n - i,
    {
        let c = s.get_char(i);
        let ghost prefix = s@.take(i as int);
        let ghost next = s@.take(i + 1);
        assert(next.drop_last() =~= prefix);
        assert(next.last() == c);
        assert(i > 0 ==> prefix.last() == s@[i - 1]);
        if char_is_space(c) {
            if inside {
                let word = s.substring_char(start, i);
                let ghost before = texts(out@);
                out.push(String::from_str(word));
                assert(texts(out@) =~= before.push(s@.subrange(start as int, i as int)));
                inside = false;
            }
        } else {
            if inside {
                assert(s@.subrange(start as int, i as int).push(c) =~= s@.subrange(
                    start as int,
                    i + 1,
                ));
                assert(texts(out@).push(s@.subrange(start as int, i as int)).drop_last() =~= texts(
                    out@,
                ));
            } else {
                start = i;
                inside = true;
                assert(s@.subrange(i as int, i + 1) =~= seq![c]);
            }
        }
        i += 1;
    }
    assert(s@.take(n as int) =~= s@);
    if inside {
        let word = s.substring_char(start, n);
        let ghost before = texts(out@);
        out.push(String::from_str(word));
        assert(texts(out@) =~= before.push(s@.subrange(start as int, n as int)));
    }
    out
}

/// `s` without the white space at its two ends.
pub fn trim(s: &str) -> (r: String)
    ensures
        r@ == trimmed(s@),
{
    let n = s.unicode_len();
    let mut end: usize = n;
    assert(s@.take(n as int) =~= s@);
    while end > 0 && char_is_space(s.get_char(end - 1))
        invariant
            n == s@.len(),
            end <= n,
            trimmed(s@) == trimmed(s@.take(end as int)),
        decreases end,
    {
        assert(s@.take(end as int).drop_last() =~= s@.take(end - 1));
        end -= 1;
    }
    let mut begin: usize = 0;
    assert(s@.subrange(0, end as int) =~= s@.take(end as int));
    while begin < end && char_is_space(s.get_char(begin))
        invariant
            n == s@.len(),
            begin <= end <= n,
            end > 0 ==> !is_space(s@[end - 1]),
            trimmed(s@) == trimmed_start(s@.subrange(begin as int, end as int)),
        decreases end - begin,
    {
        assert(s@.subrange(begin as int, end as int).drop_first() =~= s@.subrange(
            begin + 1,
            end as int,
        ));
        begin += 1;
    }
    String::from_str(s.substring_char(begin, end))
}

/// The text of the decimal digit `d`.
fn digit_text(d: u64) -> (r: &'static str)
    requires
        d < 10,
    ensures
        r@ == digit(d as nat),
{
    if d == 0 {
        "0"
    } else if d == 1 {
        "1"
    } else if d == 2 {
        "2"
    } else if d == 3 {
        "3"
    } else if d == 4 {
        "4"
    } else if d == 5 {
        "5"
    } else if d == 6 {
        "6"
    } else if d == 7 {
        "7"
    } else if d == 8 {
        "8"
    } else {
        "9"
    }
}

/// Appends `n` in decimal to `out`.
pub fn push_decimal(out: &mut String, n: u64)
    ensures
        final(out)@ == old(out)@ + decimal(n as nat),
    decreases n,
{
    if n >= 10 {
        push_decimal(out, n / 10);
    }
    out.append(digit_text(n % 10));
}

/// A text that neither starts nor ends with white space is its own
/// trimmed form.
pub proof fn lemma_trimmed_fixed(s: Seq<char>)
    requires
        s.len() > 0,
        !is_space(s[0]),
        !is_space(s.last()),
    ensures
        trimmed(s) == s,
{
}

/// Whether `t` is a word: it is not empty and holds no white space.
pub open spec fn is_word(t: Seq<char>) -> bool {
    t.len() > 0 && forall|i: int| 0 <= i < t.len() ==> !is_space(#[trigger] t[i])
}

/// Tokens are words.
///
/// Every token of a text is a word; a text has no token if and only if it
/// holds nothing but white space; and a text that ends in a word has that
/// word's end as the end of its last token.
pub proof fn lemma_tokens_are_words(s: Seq<char>)
    ensures
        forall|k: int| 0 <= k < tokens(s).len() ==> is_word(#[trigger] tokens(s)[k]),
        tokens(s).len() == 0 <==> forall|i: int| 0 <= i < s.len() ==> is_space(#[trigger] s[i]),
        s.len() > 0 && !is_space(s.last()) ==> tokens(s).len() > 0 && tokens(s).last().last()
            == s.last(),
    decreases s.len(),
{
    if s.len() > 0 {
        let before = s.drop_last();
        let c = s.last();
        lemma_tokens_are_words(before);
        if is_space(c) {
            assert forall|i: int| 0 <= i < s.len() && tokens(s).len() == 0 implies is_space(
                #[trigger] s[i],
            ) by {
                if i < before.len() {
                    assert(before[i] == s[i]);
                }
            }
            if tokens(s).len() > 0 {
                let i = choose|i: int| 0 <= i < before.len() && !is_space(#[trigger] before[i]);
                assert(s[i] == before[i]);
            }
        } else if before.len() > 0 && !is_space(before.last()) {
            let old = tokens(before);
            let grown = old.last().push(c);
            assert(is_word(grown)) by {
                assert(is_word(old.last()));
                assert forall|i: int| 0 <= i < grown.len() implies !is_space(
                    #[trigger] grown[i],
                ) by {
                    if i < old.last().len() {
                        assert(grown[i] == old.last()[i]);
                    }
                }
            }
            assert forall|k: int| 0 <= k < tokens(s).len() implies is_word(
                #[trigger] tokens(s)[k],
            ) by {
                if k < old.len() - 1 {
                    assert(tokens(s)[k] == old[k]);
                }
            }
            assert(!is_space(s[s.len() - 1]));
        } else {
            let old = tokens(before);
            assert(is_word(seq![c]));
            assert forall|k: int| 0 <= k < tokens(s).len() implies is_word(
                #[trigger] tokens(s)[k],
            ) by {
                if k < old.len() {
                    assert(tokens(s)[k] == old[k]);
                }
            }
            assert(!is_space(s[s.len() - 1]));
        }
    }
}

} // verus!
