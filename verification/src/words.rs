use vstd::prelude::*;
use vstd::string::StrSliceExecFns;

verus! {

/// The whitespace characters that delimit words: the Unicode `White_Space` set.
pub open spec fn is_space_char(c: char) -> bool {
    let u = c as u32;
    ||| u == 0x20
    ||| (0x09 <= u && u <= 0x0D)
    ||| u == 0x85
    ||| u == 0xA0
    ||| u == 0x1680
    ||| (0x2000 <= u && u <= 0x200A)
    ||| u == 0x2028
    ||| u == 0x2029
    ||| u == 0x202F
    ||| u == 0x205F
    ||| u == 0x3000
}

pub fn char_is_space(c: char) -> (r: bool)
    ensures
        r == is_space_char(c),
{
    let u = c as u32;
    u == 0x20 || (0x09 <= u && u <= 0x0D) || u == 0x85 || u == 0xA0 || u == 0x1680 || (0x2000 <= u
        && u <= 0x200A) || u == 0x2028 || u == 0x2029 || u == 0x202F || u == 0x205F || u == 0x3000
}

/// The whitespace-delimited words of `s` from position `i` on, `cur` being the
/// word under construction (the characters read since the last delimiter).
pub open spec fn words_from(s: Seq<char>, i: int, cur: Seq<char>) -> Seq<Seq<char>>
    decreases s.len() - i,
{
    if i < 0 || i >= s.len() {
        if cur.len() > 0 {
            seq![cur]
        } else {
            Seq::empty()
        }
    } else if is_space_char(s[i]) {
        if cur.len() > 0 {
            seq![cur] + words_from(s, i + 1, Seq::empty())
        } else {
            words_from(s, i + 1, Seq::empty())
        }
    } else {
        words_from(s, i + 1, cur.push(s[i]))
    }
}

/// The whitespace-delimited words of `s`, in order, each word nonempty and
/// free of whitespace.
pub open spec fn words_spec(s: Seq<char>) -> Seq<Seq<char>> {
    words_from(s, 0, Seq::empty())
}

/// How many whitespace-delimited words `s` holds.
pub open spec fn word_count_spec(s: Seq<char>) -> nat {
    words_spec(s).len()
}

/// Relies on `String::push`: appends the given character to the end of the string.
#[verifier::external_body]
pub(crate) fn push_char(s: &mut String, c: char)
    ensures
        final(s)@ == old(s)@.push(c),
{
    s.push(c)
}

/// Splits `s` into its whitespace-delimited words.
pub fn split_words(s: &str) -> (ws: Vec<String>)
    ensures
        ws.deep_view() == words_spec(s@),
{
    let n = s.unicode_len();
    let mut ws: Vec<String> = Vec::new();
    let mut cur = String::new();
    let mut i: usize = 0;
    while i < n
        invariant
            n == s@.len(),
            i <= n,
            words_spec(s@) == ws.deep_view() + words_from(s@, i as int, cur@),
        decreases n - i,
    {
        let ghost pre_ws = ws.deep_view();
        let ghost pre_cur = cur@;
        let c = s.get_char(i);
        if char_is_space(c) {
            if !cur.as_str().is_empty() {
                ws.push(cur);
                cur = String::new();
                proof {
                    assert(ws.deep_view() =~~= pre_ws.push(pre_cur));
                    assert(words_from(s@, i as int, pre_cur) == seq![pre_cur] + words_from(
                        s@,
                        i + 1,
                        Seq::empty(),
                    ));
                    assert(pre_ws + (seq![pre_cur] + words_from(s@, i + 1, Seq::empty()))
                        =~~= pre_ws.push(pre_cur) + words_from(s@, i + 1, Seq::empty()));
                }
            } else {
                proof {
                    assert(pre_cur =~= Seq::<char>::empty());
                }
            }
        } else {
            push_char(&mut cur, c);
        }
        i = i + 1;
    }
    if !cur.as_str().is_empty() {
        let ghost pre_ws = ws.deep_view();
        let ghost pre_cur = cur@;
        ws.push(cur);
        proof {
            assert(ws.deep_view() =~~= pre_ws.push(pre_cur));
            assert(pre_ws + seq![pre_cur] =~~= pre_ws.push(pre_cur));
        }
    } else {
        proof {
            assert(cur@ =~= Seq::<char>::empty());
        }
    }
    proof {
        assert(words_spec(s@) =~~= ws.deep_view());
    }
    ws
}

/// Counts the whitespace-delimited words of `s`.
pub fn word_count(s: &str) -> (r: usize)
    ensures
        r == word_count_spec(s@),
{
    let ws = split_words(s);
    proof {
        assert(ws.deep_view().len() == ws@.len());
    }
    ws.len()
}

} // verus!
