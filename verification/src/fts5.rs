//! The full-text-search demo's data handling: reading texts out of result
//! rows, checking the table list, and making up rows of random words.

use vstd::prelude::*;

use crate::chars::{chars_of, push_char};

verus! {

/// The value of a run of decimal digits.
pub open spec fn digits_value(s: Seq<char>) -> nat
    decreases s.len(),
{
    if s.len() == 0 {
        0
    } else {
        digits_value(s.drop_last()) * 10 + ((s.last() as u32) - 48) as nat
    }
}

pub open spec fn is_digit(c: char) -> bool {
    '0' <= c <= '9'
}

/// The digits part of a number: the text without a leading `+`.
pub open spec fn unsigned_body(s: Seq<char>) -> Seq<char> {
    if s.len() > 0 && s[0] == '+' {
        s.drop_first()
    } else {
        s
    }
}

/// What `str::parse::<usize>` gives: an optional `+` followed by at least one
/// ASCII digit and nothing else, whose value fits in `usize`.
pub open spec fn parse_usize_spec(s: Seq<char>) -> Option<usize> {
    let body = unsigned_body(s);
    if body.len() > 0 && (forall|i: int| 0 <= i < body.len() ==> is_digit(body[i]))
        && digits_value(body) <= usize::MAX {
        Some(digits_value(body) as usize)
    } else {
        None
    }
}

proof fn lemma_digits_value_prefix(s: Seq<char>, k: int)
    requires
        0 <= k <= s.len(),
        forall|i: int| 0 <= i < s.len() ==> is_digit(s[i]),
    ensures
        digits_value(s.take(k)) <= digits_value(s),
    decreases s.len() - k,
{
    if k < s.len() {
        lemma_digits_value_prefix(s, k + 1);
        assert(s.take(k + 1).drop_last() =~= s.take(k));
    } else {
        assert(s.take(k) =~= s);
    }
}

proof fn lemma_prefix_too_big(body: Seq<char>, k: int)
    requires
        0 <= k <= body.len(),
        digits_value(body.take(k)) > usize::MAX,
    ensures
        !(forall|i: int| 0 <= i < body.len() ==> is_digit(body[i])) || digits_value(body)
            > usize::MAX,
{
    if forall|i: int| 0 <= i < body.len() ==> is_digit(body[i]) {
        lemma_digits_value_prefix(body, k);
    }
}

/// Parses a decimal `usize` the way `str::parse::<usize>` does.
pub fn parse_usize(s: &str) -> (r: Option<usize>)
    ensures
        r == parse_usize_spec(s@),
{
    let v = chars_of(s);
    let start: usize = if v.len() > 0 && v[0] == '+' {
        1
    } else {
        0
    };
    let ghost body = unsigned_body(s@);
    assert(body =~= v@.skip(start as int));
    if start == v.len() {
        return None;
    }
    let mut acc: usize = 0;
    let mut i: usize = start;
    while i < v.len()
        invariant
            v@ == s@,
            start <= i <= v.len(),
            start < v.len(),
            body == v@.skip(start as int),
            body == unsigned_body(s@),
            forall|k: int| start <= k < i ==> is_digit(v@[k]),
            acc == digits_value(v@.subrange(start as int, i as int)),
        decreases v.len() - i,
    {
        let c = v[i];
        if !('0' <= c && c <= '9') {
            assert(!is_digit(body[i - start]));
            return None;
        }
        let d = ((c as u32) - 48) as usize;
        assert(v@.subrange(start as int, i + 1).drop_last() =~= v@.subrange(start as int, i as int));
        assert(body.take(i + 1 - start) =~= v@.subrange(start as int, i + 1));
        assert(digits_value(v@.subrange(start as int, i + 1)) == acc * 10 + d);
        let step = acc.checked_mul(10);
        match step {
            Some(m) => match m.checked_add(d) {
                Some(n) => {
                    acc = n;
                },
                None => {
                    proof {
                        lemma_prefix_too_big(body, i + 1 - start);
                    }
                    return None;
                },
            },
            None => {
                proof {
                    lemma_prefix_too_big(body, i + 1 - start);
                }
                return None;
            },
        }
        i = i + 1;
    }
    assert(v@.subrange(start as int, v.len() as int) =~= body);
    Some(acc)
}

/// The table the demo keeps its texts in.
pub const TABLE_NAME: &'static str = "data";

/// The full-text index the demo builds over that table.
pub const EXPECTED_FTS5_TABLE: &'static str = "fts5_data";

/// A text read back from the database.
#[derive(Debug, Clone, PartialEq)]
pub struct Text {
    pub id: usize,
    pub text: String,
}

/// The text a result row stands for: the first value parsed as the id, the
/// second value as the text; no text when either is missing or the id does
/// not parse.
pub open spec fn row_text(row: Seq<String>) -> Option<(usize, Seq<char>)> {
    if row.len() >= 2 {
        match parse_usize_spec(row[0]@) {
            Some(id) => Some((id, row[1]@)),
            None => None,
        }
    } else {
        None
    }
}

/// The texts of the rows that stand for one, in row order.
pub open spec fn rows_texts(rows: Seq<Vec<String>>) -> Seq<(usize, Seq<char>)>
    decreases rows.len(),
{
    if rows.len() == 0 {
        seq![]
    } else {
        let rest = rows_texts(rows.drop_last());
        match row_text(rows.last()@) {
            Some(t) => rest.push(t),
            None => rest,
        }
    }
}

pub open spec fn text_views(texts: Seq<Text>) -> Seq<(usize, Seq<char>)> {
    texts.map_values(|t: Text| (t.id, t.text@))
}

/// Reads one result row as a text.
pub fn text_from_row(values: &Vec<String>) -> (r: Option<Text>)
    ensures
        match r {
            Some(t) => row_text(values@) == Some((t.id, t.text@)),
            None => row_text(values@) is None,
        },
{
    if values.len() < 2 {
        return None;
    }
    match parse_usize(values[0].as_str()) {
        Some(id) => Some(Text { id, text: values[1].clone() }),
        None => None,
    }
}

/// Reads the result rows as texts, skipping the rows that do not stand for
/// one.
pub fn texts_from_rows(rows: &Vec<Vec<String>>) -> (r: Vec<Text>)
    ensures
        text_views(r@) == rows_texts(rows@),
{
    let mut texts: Vec<Text> = Vec::new();
    let mut i: usize = 0;
    while i < rows.len()
        invariant
            i <= rows.len(),
            text_views(texts@) == rows_texts(rows@.take(i as int)),
        decreases rows.len() - i,
    {
        assert(rows@.take(i + 1).drop_last() =~= rows@.take(i as int));
        match text_from_row(&rows[i]) {
            Some(t) => {
                texts.push(t);
                assert(text_views(texts@) =~= text_views(texts@.drop_last()).push(
                    (texts@.last().id, texts@.last().text@),
                ));
            },
            None => {},
        }
        i = i + 1;
    }
    assert(rows@.take(rows.len() as int) =~= rows@);
    texts
}

/// Whether `names` lists a table called `name`.
pub fn contains_table(names: &Vec<String>, name: &str) -> (r: bool)
    ensures
        r == (exists|i: int| 0 <= i < names@.len() && (#[trigger] names@[i])@ == name@),
{
    let mut i: usize = 0;
    while i < names.len()
        invariant
            i <= names.len(),
            forall|k: int| 0 <= k < i ==> (#[trigger] names@[k])@ != name@,
        decreases names.len() - i,
    {
        if crate::typing::same_text(names[i].as_str(), name) {
            return true;
        }
        i = i + 1;
    }
    false
}

/// The words joined with a single space between neighbours.
pub open spec fn joined(words: Seq<Seq<char>>) -> Seq<char>
    decreases words.len(),
{
    if words.len() == 0 {
        seq![]
    } else if words.len() == 1 {
        words[0]
    } else {
        joined(words.drop_last()) + seq![' '] + words.last()
    }
}

pub open spec fn word_views(words: Seq<String>) -> Seq<Seq<char>> {
    words.map_values(|w: String| w@)
}

/// The words joined with a single space between neighbours (`join(" ")`).
pub fn join_words(words: &Vec<String>) -> (r: String)
    ensures
        r@ == joined(word_views(words@)),
{
    let mut out = String::new();
    let mut i: usize = 0;
    while i < words.len()
        invariant
            i <= words.len(),
            out@ == joined(word_views(words@.take(i as int))),
        decreases words.len() - i,
    {
        let ghost before = out@;
        if i > 0 {
            push_char(&mut out, ' ');
        }
        let w = chars_of(words[i].as_str());
        let mut j: usize = 0;
        while j < w.len()
            invariant
                j <= w.len(),
                w@ == words@[i as int]@,
                out@ == (if i > 0 {
                    before + seq![' ']
                } else {
                    before
                }) + w@.take(j as int),
            decreases w.len() - j,
        {
            push_char(&mut out, w[j]);
            assert(w@.take(j as int).push(w@[j as int]) =~= w@.take(j + 1));
            j = j + 1;
        }
        assert(w@.take(w.len() as int) =~= w@);
        assert(word_views(words@.take(i + 1)).drop_last() =~= word_views(words@.take(i as int)));
        if i == 0 {
            assert(before =~= Seq::<char>::empty());
        }
        i = i + 1;
    }
    assert(words@.take(words.len() as int) =~= words@);
    out
}

/// `random_word::get(Lang::En)`: one word picked at random from the crate's
/// English word list. Which word comes back rests on chance; what holds of
/// every word is stated: the list is read line by line (`str::lines`), so a
/// word holds no newline, and the crate documents that a word is never
/// empty.
#[verifier::external_body]
fn random_english_word() -> (r: String)
    ensures
        r@.len() > 0,
        !r@.contains('\n'),
{
    random_word::get(random_word::Lang::En).to_owned()
}

/// Five random English words, each non-empty and free of newlines, joined
/// with single spaces.
pub fn generate_random_words() -> (r: String)
    ensures
        exists|words: Seq<Seq<char>>|
            words.len() == 5 && r@ == joined(words) && forall|k: int|
                0 <= k < 5 ==> (#[trigger] words[k]).len() > 0 && !words[k].contains('\n'),
{
    let mut words: Vec<String> = Vec::new();
    let mut k: usize = 0;
    while k < 5
        invariant
            k <= 5,
            words@.len() == k,
            forall|i: int|
                0 <= i < k ==> (#[trigger] words@[i])@.len() > 0 && !words@[i]@.contains('\n'),
        decreases 5 - k,
    {
        words.push(random_english_word());
        k = k + 1;
    }
    let r = join_words(&words);
    let ghost ws = word_views(words@);
    assert(ws.len() == 5);
    assert(forall|i: int| 0 <= i < 5 ==> #[trigger] ws[i] == words@[i]@);
    r
}

/// The Unicode `White_Space` property (what `char::is_whitespace` and
/// `str::trim` go by): tab through carriage return, space, next line,
/// no-break space, ogham space mark, the spaces from en quad to hair space,
/// line and paragraph separators, narrow no-break space, medium mathematical
/// space and ideographic space.
pub open spec fn white_space(c: char) -> bool {
    let u = c as u32;
    ||| 0x9 <= u <= 0xD
    ||| u == 0x20
    ||| u == 0x85
    ||| u == 0xA0
    ||| u == 0x1680
    ||| 0x2000 <= u <= 0x200A
    ||| u == 0x2028
    ||| u == 0x2029
    ||| u == 0x202F
    ||| u == 0x205F
    ||| u == 0x3000
}

/// Whether `c` is white space.
pub fn is_white_space(c: char) -> (r: bool)
    ensures
        r == white_space(c),
{
    let u = c as u32;
    (0x9 <= u && u <= 0xD) || u == 0x20 || u == 0x85 || u == 0xA0 || u == 0x1680 || (0x2000 <= u
        && u <= 0x200A) || u == 0x2028 || u == 0x2029 || u == 0x202F || u == 0x205F || u == 0x3000
}

/// Whether the search box holds nothing but white space: then the query
/// trims to nothing, the results are cleared and no search is run.
pub fn query_is_blank(query: &str) -> (r: bool)
    ensures
        r == forall|i: int| 0 <= i < query@.len() ==> white_space(#[trigger] query@[i]),
{
    let v = chars_of(query);
    let mut i: usize = 0;
    while i < v.len()
        invariant
            v@ == query@,
            i <= v.len(),
            forall|k: int| 0 <= k < i ==> white_space(#[trigger] query@[k]),
        decreases v.len() - i,
    {
        if !is_white_space(v[i]) {
            return false;
        }
        i = i + 1;
    }
    true
}

} // verus!
