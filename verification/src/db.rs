use crate::words::{push_char, split_words, words_spec};
use vstd::prelude::*;
use vstd::string::{StrSliceExecFns, StringExecFns};

verus! {

/// A provided target text together with a label naming where it came from.
pub struct Text {
    pub source: String,
    pub text: String,
}

/// The fixed fallback pair: always available, so a round can always start.
pub fn random_string() -> (r: Text)
    ensures
        r.source@ == "Random"@,
        r.text@ == "This is a random string to type"@,
{
    Text { source: "Random".to_owned(), text: "This is a random string to type".to_owned() }
}

/// The characters of `s` from position `i` on, with every non-ASCII one dropped.
pub open spec fn ascii_from(s: Seq<char>, i: int) -> Seq<char>
    decreases s.len() - i,
{
    if i < 0 || i >= s.len() {
        Seq::empty()
    } else if (s[i] as u32) < 128 {
        seq![s[i]] + ascii_from(s, i + 1)
    } else {
        ascii_from(s, i + 1)
    }
}

/// `s` with every non-ASCII character dropped.
pub open spec fn transliterated(s: Seq<char>) -> Seq<char> {
    ascii_from(s, 0)
}

/// The characters of `s` from position `i` on, with every line feed dropped.
pub open spec fn unbroken_from(s: Seq<char>, i: int) -> Seq<char>
    decreases s.len() - i,
{
    if i < 0 || i >= s.len() {
        Seq::empty()
    } else if s[i] == '\n' {
        unbroken_from(s, i + 1)
    } else {
        seq![s[i]] + unbroken_from(s, i + 1)
    }
}

/// `s` with every line feed dropped: its lines run together.
pub open spec fn lines_joined(s: Seq<char>) -> Seq<char> {
    unbroken_from(s, 0)
}

/// Restricts provided text to ASCII, dropping every other character.
pub fn transliterate(text: String) -> (r: String)
    ensures
        r@ == transliterated(text@),
{
    let s = text.as_str();
    let n = s.unicode_len();
    let mut r = String::new();
    let mut i: usize = 0;
    while i < n
        invariant
            n == s@.len(),
            i <= n,
            transliterated(s@) == r@ + ascii_from(s@, i as int),
        decreases n - i,
    {
        let c = s.get_char(i);
        if (c as u32) < 128 {
            let ghost pre = r@;
            push_char(&mut r, c);
            proof {
                assert(pre + (seq![c] + ascii_from(s@, i + 1)) =~= r@ + ascii_from(s@, i + 1));
            }
        }
        i = i + 1;
    }
    r
}

/// Joins the lines of provided text into one, dropping every line feed.
pub fn join_lines(text: String) -> (r: String)
    ensures
        r@ == lines_joined(text@),
{
    let s = text.as_str();
    let n = s.unicode_len();
    let mut r = String::new();
    let mut i: usize = 0;
    while i < n
        invariant
            n == s@.len(),
            i <= n,
            lines_joined(s@) == r@ + unbroken_from(s@, i as int),
        decreases n - i,
    {
        let c = s.get_char(i);
        if c != '\n' {
            let ghost pre = r@;
            push_char(&mut r, c);
            proof {
                assert(pre + (seq![c] + unbroken_from(s@, i + 1)) =~= r@ + unbroken_from(s@, i + 1));
            }
        }
        i = i + 1;
    }
    r
}

/// The words of `ws` joined by single spaces, taken greedily from the front
/// while they fit the budget `max`: `used` counts the characters already spent
/// (each earlier word and its one trailing separator), and the first word that
/// would push the total past `max` stops the line.
pub open spec fn cutoff_words(ws: Seq<Seq<char>>, used: int, max: int) -> Seq<char>
    decreases ws.len(),
{
    if ws.len() == 0 {
        Seq::empty()
    } else if used + ws[0].len() > max {
        Seq::empty()
    } else if used == 0 {
        ws[0] + cutoff_words(ws.drop_first(), ws[0].len() as int + 1, max)
    } else {
        seq![' '] + ws[0] + cutoff_words(ws.drop_first(), used + ws[0].len() + 1, max)
    }
}

/// `s` reduced to whole words within a budget of `max` characters: the words
/// of `s` joined by single spaces, cut before the first word that would no
/// longer fit.
pub open spec fn cutoff_spec(s: Seq<char>, max: int) -> Seq<char> {
    cutoff_words(words_spec(s), 0, max)
}

/// Caps provided text to whole words within a budget of `max_len` characters.
pub fn cutoff(text: String, max_len: usize) -> (r: String)
    requires
        max_len < usize::MAX,
    ensures
        r@ == cutoff_spec(text@, max_len as int),
{
    let ws = split_words(text.as_str());
    let mut result = String::new();
    let mut used: usize = 0;
    let mut j: usize = 0;
    let mut stopped = false;
    proof {
        assert(ws.deep_view().skip(0) =~~= ws.deep_view());
        assert(result@ + cutoff_words(ws.deep_view(), 0, max_len as int) =~= cutoff_words(
            ws.deep_view(),
            0,
            max_len as int,
        ));
    }
    while j < ws.len() && !stopped
        invariant
            j <= ws@.len(),
            ws.deep_view() == words_spec(text@),
            cutoff_spec(text@, max_len as int) == result@ + cutoff_words(
                ws.deep_view().skip(j as int),
                used as int,
                max_len as int,
            ),
            max_len < usize::MAX,
            stopped ==> cutoff_words(ws.deep_view().skip(j as int), used as int, max_len as int)
                == Seq::<char>::empty(),
        decreases ws@.len() - j, 1int - (if stopped { 1int } else { 0int }),
    {
        let ghost tail = ws.deep_view().skip(j as int);
        proof {
            assert(tail[0] == ws.deep_view()[j as int]);
            assert(tail.drop_first() =~~= ws.deep_view().skip(j as int + 1));
        }
        let w = &ws[j];
        let wl = w.as_str().unicode_len();
        if wl > max_len || used > max_len - wl {
            stopped = true;
            proof {
                assert(cutoff_words(tail, used as int, max_len as int) =~= Seq::<char>::empty());
            }
        } else {
            let ghost pre = result@;
            if used > 0 {
                push_char(&mut result, ' ');
            }
            result.append(w.as_str());
            proof {
                if used == 0 {
                    assert(cutoff_words(tail, used as int, max_len as int) == tail[0]
                        + cutoff_words(tail.drop_first(), tail[0].len() as int + 1, max_len as int));
                    assert(pre + (tail[0] + cutoff_words(
                        tail.drop_first(),
                        tail[0].len() as int + 1,
                        max_len as int,
                    )) =~= result@ + cutoff_words(
                        tail.drop_first(),
                        tail[0].len() as int + 1,
                        max_len as int,
                    ));
                } else {
                    assert(cutoff_words(tail, used as int, max_len as int) == seq![' '] + tail[0]
                        + cutoff_words(
                        tail.drop_first(),
                        used + tail[0].len() + 1,
                        max_len as int,
                    ));
                    assert(pre + (seq![' '] + tail[0] + cutoff_words(
                        tail.drop_first(),
                        used + tail[0].len() + 1,
                        max_len as int,
                    )) =~= result@ + cutoff_words(
                        tail.drop_first(),
                        used + tail[0].len() + 1,
                        max_len as int,
                    ));
                }
            }
            used = used + wl + 1;
            j = j + 1;
        }
    }
    proof {
        if !stopped {
            assert(ws.deep_view().skip(j as int) =~~= Seq::<Seq<char>>::empty());
        }
    }
    result
}

/// Builds the text pair for a fetched article: the label names the source and
/// the article's title, and the summary is flattened to one line, restricted
/// to ASCII, and capped to whole words within an 80-character budget.
pub fn wikipedia_text(title: String, summary: String) -> (r: Text)
    ensures
        r.source@ == "Wikipedia ("@ + title@ + ")"@,
        r.text@ == cutoff_spec(transliterated(lines_joined(summary@)), 80),
{
    let source = "Wikipedia (".to_owned().concat(title.as_str()).concat(")");
    let text = cutoff(transliterate(join_lines(summary)), 80);
    Text { source, text }
}

} // verus!
