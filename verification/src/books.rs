use vstd::prelude::*;
use vstd::string::{StrSliceExecFns, StringExecFns};
use crate::strfmt::{append_dec, dec_digits, digit_char_spec};

verus! {

/// Model of a catalogue entry.
pub struct BookModel {
    pub title: Seq<char>,
    pub author: Seq<char>,
    pub year: u16,
}

/// One catalogue entry: a title, an author and a publication year.
#[derive(Clone, Debug)]
pub struct Book {
    pub title: String,
    pub author: String,
    pub year: u16,
}

impl View for Book {
    type V = BookModel;

    open spec fn view(&self) -> BookModel {
        BookModel { title: self.title@, author: self.author@, year: self.year }
    }
}

/// True of a decimal digit character.
pub open spec fn is_digit_char(c: char) -> bool {
    c == '0' || c == '1' || c == '2' || c == '3' || c == '4' || c == '5' || c == '6' || c == '7'
        || c == '8' || c == '9'
}

/// The value of a decimal digit character (zero for anything else).
pub open spec fn digit_val(c: char) -> nat {
    if c == '1' {
        1
    } else if c == '2' {
        2
    } else if c == '3' {
        3
    } else if c == '4' {
        4
    } else if c == '5' {
        5
    } else if c == '6' {
        6
    } else if c == '7' {
        7
    } else if c == '8' {
        8
    } else if c == '9' {
        9
    } else {
        0
    }
}

/// True if every character of the text is a decimal digit.
pub open spec fn all_digits(s: Seq<char>) -> bool {
    forall|i: int| 0 <= i < s.len() ==> is_digit_char(#[trigger] s[i])
}

/// The number a string of decimal digits denotes.
pub open spec fn dec_value(s: Seq<char>) -> nat
    decreases s.len(),
{
    if s.len() == 0 {
        0
    } else {
        dec_value(s.drop_last()) * 10 + digit_val(s.last())
    }
}

/// Index of the first comma, or the length of the text if it has none.
pub open spec fn find_comma(s: Seq<char>) -> nat
    decreases s.len(),
{
    if s.len() == 0 {
        0
    } else if s[0] == ',' {
        0
    } else {
        1 + find_comma(s.drop_first())
    }
}

/// The stored form of an entry: title, author and year, comma-separated.
pub open spec fn book_line_model(b: BookModel) -> Seq<char> {
    b.title + seq![','] + b.author + seq![','] + dec_digits(b.year as nat)
}

/// The digits of a year field: an optional leading plus sign is allowed,
/// as machine parsing of unsigned numbers allows it.
pub open spec fn year_digits(s: Seq<char>) -> Seq<char> {
    if s.len() > 0 && s[0] == '+' {
        s.drop_first()
    } else {
        s
    }
}

/// What parsing a stored line yields: the text before the first comma is
/// the title, the text between the first and second the author, and the
/// text between the second comma and the next comma or the end is the
/// year — a digit string, optionally plus-signed, whose value fits a
/// year. Anything after a third comma is ignored; any other shape is
/// rejected.
pub open spec fn parse_book_model(line: Seq<char>) -> Option<BookModel> {
    let i = find_comma(line) as int;
    if i == line.len() {
        None
    } else {
        let rest = line.skip(i + 1);
        let j = find_comma(rest) as int;
        if j == rest.len() {
            None
        } else {
            let tail = rest.skip(j + 1);
            let digits = year_digits(tail.take(find_comma(tail) as int));
            if digits.len() > 0 && all_digits(digits) && dec_value(digits) <= u16::MAX {
                Some(
                    BookModel {
                        title: line.take(i),
                        author: rest.take(j),
                        year: dec_value(digits) as u16,
                    },
                )
            } else {
                None
            }
        }
    }
}

/// Renders one catalogue entry in its stored form.
pub fn book_line(b: &Book) -> (r: String)
    ensures
        r@ == book_line_model(b@),
{
    let mut out = b.title.clone();
    out.append(",");
    out.append(b.author.as_str());
    out.append(",");
    append_dec(&mut out, b.year as u64);
    proof {
        reveal_strlit(",");
        assert(out@ =~= book_line_model(b@));
    }
    out
}

proof fn lemma_find_comma_at(s: Seq<char>, i: int)
    requires
        0 <= i <= s.len(),
        forall|k: int| 0 <= k < i ==> #[trigger] s[k] != ',',
        i == s.len() || s[i] == ',',
    ensures
        find_comma(s) == i,
    decreases i,
{
    if i > 0 {
        lemma_find_comma_at(s.drop_first(), i - 1);
    }
}

fn find_comma_exec(s: &str, from: usize) -> (r: usize)
    requires
        from <= s@.len(),
    ensures
        from <= r <= s@.len(),
        r - from == find_comma(s@.skip(from as int)),
        r < s@.len() ==> s@[r as int] == ',',
        forall|k: int| from <= k < r ==> #[trigger] s@[k] != ',',
{
    let n = s.unicode_len();
    let mut i: usize = from;
    while i < n && s.get_char(i) != ','
        invariant
            n == s@.len(),
            from <= i <= n,
            forall|k: int| from <= k < i ==> #[trigger] s@[k] != ',',
        decreases n - i,
    {
        i = i + 1;
    }
    proof {
        let sub = s@.skip(from as int);
        assert(forall|k: int| 0 <= k < i - from ==> #[trigger] sub[k] != ',');
        lemma_find_comma_at(sub, i - from);
    }
    i
}

/// Parses a digit string as a year value.
fn parse_year(s: &str) -> (r: Option<u16>)
    ensures
        match r {
            Some(v) => s@.len() > 0 && all_digits(s@) && dec_value(s@) == v as nat,
            None => !(s@.len() > 0 && all_digits(s@) && dec_value(s@) <= u16::MAX),
        },
{
    let n = s.unicode_len();
    if n == 0 {
        return None;
    }
    let mut acc: u32 = 0;
    let mut i: usize = 0;
    while i < n
        invariant
            n == s@.len(),
            i <= n,
            acc as nat == dec_value(s@.take(i as int)),
            acc <= u16::MAX,
            forall|k: int| 0 <= k < i ==> is_digit_char(#[trigger] s@[k]),
        decreases n - i,
    {
        let c = s.get_char(i);
        let d: u32 = match c {
            '0' => 0,
            '1' => 1,
            '2' => 2,
            '3' => 3,
            '4' => 4,
            '5' => 5,
            '6' => 6,
            '7' => 7,
            '8' => 8,
            '9' => 9,
            _ => {
                proof {
                    assert(!is_digit_char(s@[i as int]));
                }
                return None;
            },
        };
        proof {
            assert(s@.take(i + 1).drop_last() =~= s@.take(i as int));
            assert(s@.take(i + 1).last() == s@[i as int]);
        }
        let next: u32 = acc * 10 + d;
        if next > u16::MAX as u32 {
            proof {
                lemma_dec_value_monotone(s@, i + 1);
            }
            return None;
        }
        acc = next;
        i = i + 1;
    }
    proof {
        assert(s@.take(n as int) =~= s@);
    }
    Some(acc as u16)
}

proof fn lemma_dec_value_monotone(s: Seq<char>, i: int)
    requires
        0 <= i <= s.len(),
    ensures
        dec_value(s) >= dec_value(s.take(i)),
    decreases s.len() - i,
{
    if i < s.len() {
        lemma_dec_value_monotone(s, i + 1);
        assert(s.take(i + 1).drop_last() =~= s.take(i));
        assert(dec_value(s.take(i + 1)) == dec_value(s.take(i)) * 10 + digit_val(s.take(i + 1).last()));
        assert(dec_value(s.take(i)) * 10 >= dec_value(s.take(i))) by (nonlinear_arith);
    } else {
        assert(s.take(i) =~= s);
    }
}

/// Parses one stored line back into a catalogue entry, rejecting any line
/// that is not exactly a stored entry.
pub fn parse_book(line: &str) -> (r: Option<Book>)
    ensures
        match r {
            Some(b) => parse_book_model(line@) == Some(b@),
            None => parse_book_model(line@) is None,
        },
{
    let n = line.unicode_len();
    let i = find_comma_exec(line, 0);
    proof {
        assert(line@.skip(0) =~= line@);
    }
    if i == n {
        return None;
    }
    let j = find_comma_exec(line, i + 1);
    let ghost rest = line@.skip(i as int + 1);
    if j == n {
        proof {
            assert(find_comma(rest) == rest.len());
        }
        return None;
    }
    let k = find_comma_exec(line, j + 1);
    let ghost tail = rest.skip(j - (i as int + 1) + 1);
    proof {
        assert(tail =~= line@.skip(j as int + 1));
        assert(find_comma(tail) == k - (j + 1));
    }
    let ystr = line.substring_char(j + 1, k);
    proof {
        assert(ystr@ =~= tail.take(k - (j as int + 1)));
    }
    let ylen = ystr.unicode_len();
    let digits = if ylen > 0 && ystr.get_char(0) == '+' {
        let d = ystr.substring_char(1, ylen);
        proof {
            assert(d@ =~= ystr@.drop_first());
        }
        d
    } else {
        ystr
    };
    proof {
        assert(digits@ == year_digits(tail.take(find_comma(tail) as int)));
    }
    let year = match parse_year(digits) {
        Some(v) => v,
        None => {
            return None;
        },
    };
    let title = line.substring_char(0, i).to_owned();
    let author = line.substring_char(i + 1, j).to_owned();
    let b = Book { title, author, year };
    proof {
        assert(b@.title =~= line@.take(i as int));
        assert(b@.author =~= rest.take(j - (i as int + 1)));
    }
    Some(b)
}

proof fn lemma_dec_digits_all_digits(n: nat)
    ensures
        all_digits(dec_digits(n)),
        dec_digits(n).len() > 0,
    decreases n,
{
    if n < 10 {
        assert(is_digit_char(digit_char_spec(n)));
    } else {
        lemma_dec_digits_all_digits(n / 10);
        assert(is_digit_char(digit_char_spec(n % 10)));
        assert(forall|i: int|
            0 <= i < dec_digits(n).len() ==> is_digit_char(#[trigger] dec_digits(n)[i]));
    }
}

proof fn lemma_dec_value_of_dec_digits(n: nat)
    ensures
        dec_value(dec_digits(n)) == n,
    decreases n,
{
    if n < 10 {
        assert(dec_digits(n) == seq![digit_char_spec(n)]);
        assert(dec_digits(n).drop_last() =~= Seq::<char>::empty());
        assert(dec_digits(n).last() == digit_char_spec(n));
        assert(dec_value(Seq::<char>::empty()) == 0);
        assert(dec_value(dec_digits(n)) == 0 * 10 + digit_val(digit_char_spec(n)));
        assert(digit_val(digit_char_spec(n)) == n);
    } else {
        lemma_dec_value_of_dec_digits(n / 10);
        assert(dec_digits(n).drop_last() =~= dec_digits(n / 10));
        assert(dec_digits(n).last() == digit_char_spec(n % 10));
        assert(digit_val(digit_char_spec(n % 10)) == n % 10);
        assert(dec_value(dec_digits(n)) == (n / 10) * 10 + n % 10);
        vstd::arithmetic::div_mod::lemma_fundamental_div_mod(n as int, 10);
    }
}

/// Round trip: a rendered entry whose title and author are comma-free
/// parses back to exactly the same entry.
pub proof fn lemma_book_round_trip(b: BookModel)
    requires
        forall|i: int| 0 <= i < b.title.len() ==> #[trigger] b.title[i] != ',',
        forall|i: int| 0 <= i < b.author.len() ==> #[trigger] b.author[i] != ',',
    ensures
        parse_book_model(book_line_model(b)) == Some(b),
{
    let line = book_line_model(b);
    let tlen = b.title.len() as int;
    let alen = b.author.len() as int;
    lemma_dec_digits_all_digits(b.year as nat);
    assert(forall|k: int| 0 <= k < tlen ==> #[trigger] line[k] != ',');
    assert(line[tlen] == ',');
    lemma_find_comma_at(line, tlen);
    let rest = line.skip(tlen + 1);
    assert(forall|k: int| 0 <= k < alen ==> #[trigger] rest[k] == b.author[k] && rest[k] != ',');
    assert(rest[alen] == ',');
    lemma_find_comma_at(rest, alen);
    let tail = rest.skip(alen + 1);
    assert(tail =~= dec_digits(b.year as nat));
    assert forall|k: int| 0 <= k < tail.len() implies #[trigger] tail[k] != ',' by {
        assert(is_digit_char(tail[k]));
    }
    lemma_find_comma_at(tail, tail.len() as int);
    assert(tail.take(tail.len() as int) =~= tail);
    assert(is_digit_char(tail[0]));
    assert(year_digits(tail.take(find_comma(tail) as int)) == tail);
    lemma_dec_value_of_dec_digits(b.year as nat);
    assert(line.take(tlen) =~= b.title);
    assert(rest.take(alen) =~= b.author);
}

} // verus!
