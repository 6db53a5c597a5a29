use vstd::prelude::*;
use vstd::string::StrSliceExecFns;

verus! {

/// The whitespace characters stripped from target lines and separating
/// words: Unicode's White_Space set, the set that machine trimming and
/// word splitting strip.
pub open spec fn is_space_char(c: char) -> bool {
    let u = c as u32;
    u == 0x9 || u == 0xA || u == 0xB || u == 0xC || u == 0xD || u == 0x20 || u == 0x85
        || u == 0xA0 || u == 0x1680 || (0x2000 <= u && u <= 0x200A) || u == 0x2028 || u == 0x2029
        || u == 0x202F || u == 0x205F || u == 0x3000
}

/// How many whitespace characters the text starts with.
pub open spec fn leading_spaces(s: Seq<char>) -> nat
    decreases s.len(),
{
    if s.len() == 0 {
        0
    } else if !is_space_char(s[0]) {
        0
    } else {
        1 + leading_spaces(s.drop_first())
    }
}

/// How many whitespace characters the text ends with.
pub open spec fn trailing_spaces(s: Seq<char>) -> nat
    decreases s.len(),
{
    if s.len() == 0 {
        0
    } else if !is_space_char(s.last()) {
        0
    } else {
        1 + trailing_spaces(s.drop_last())
    }
}

/// The text with leading and trailing whitespace removed.
pub open spec fn trim_spec(s: Seq<char>) -> Seq<char> {
    if leading_spaces(s) <= s.len() - trailing_spaces(s) {
        s.subrange(leading_spaces(s) as int, s.len() - trailing_spaces(s))
    } else {
        Seq::empty()
    }
}

proof fn lemma_leading_at(s: Seq<char>, i: int)
    requires
        0 <= i <= s.len(),
        forall|k: int| 0 <= k < i ==> is_space_char(#[trigger] s[k]),
        i == s.len() || !is_space_char(s[i]),
    ensures
        leading_spaces(s) == i,
    decreases i,
{
    if i > 0 {
        lemma_leading_at(s.drop_first(), i - 1);
    }
}

proof fn lemma_trailing_at(s: Seq<char>, j: int)
    requires
        0 <= j <= s.len(),
        forall|k: int| s.len() - j <= k < s.len() ==> is_space_char(#[trigger] s[k]),
        j == s.len() || !is_space_char(s[s.len() - 1 - j]),
    ensures
        trailing_spaces(s) == j,
    decreases j,
{
    if j > 0 {
        lemma_trailing_at(s.drop_last(), j - 1);
    }
}

/// Strips leading and trailing whitespace from a line.
pub fn trim_line(s: &str) -> (r: String)
    ensures
        r@ == trim_spec(s@),
{
    let n = s.unicode_len();
    let mut a: usize = 0;
    while a < n && is_space(s.get_char(a))
        invariant
            n == s@.len(),
            a <= n,
            forall|k: int| 0 <= k < a ==> is_space_char(#[trigger] s@[k]),
        decreases n - a,
    {
        a = a + 1;
    }
    proof {
        lemma_leading_at(s@, a as int);
    }
    if a == n {
        proof {
            assert(trim_spec(s@) =~= Seq::<char>::empty());
        }
        String::new()
    } else {
        let mut b: usize = n;
        while b > a && is_space(s.get_char(b - 1))
            invariant
                n == s@.len(),
                a <= b <= n,
                forall|k: int| b <= k < n ==> is_space_char(#[trigger] s@[k]),
            decreases b,
        {
            b = b - 1;
        }
        proof {
            assert(!is_space_char(s@[a as int]));
            assert(b > a);
            lemma_trailing_at(s@, n - b);
        }
        let sub = s.substring_char(a, b);
        let r = sub.to_owned();
        proof {
            assert(r@ =~= trim_spec(s@));
        }
        r
    }
}

/// Whether the character is whitespace for the purpose of target lines
/// and word splitting.
pub fn is_space(c: char) -> (r: bool)
    ensures
        r == is_space_char(c),
{
    let u = c as u32;
    u == 0x9 || u == 0xA || u == 0xB || u == 0xC || u == 0xD || u == 0x20 || u == 0x85
        || u == 0xA0 || u == 0x1680 || (0x2000 <= u && u <= 0x200A) || u == 0x2028 || u == 0x2029
        || u == 0x202F || u == 0x205F || u == 0x3000
}

/// The targets of a run: each input line trimmed, blank lines dropped,
/// input order kept.
pub open spec fn targets_model(lines: Seq<Seq<char>>) -> Seq<Seq<char>>
    decreases lines.len(),
{
    if lines.len() == 0 {
        Seq::empty()
    } else {
        (if trim_spec(lines[0]).len() > 0 {
            seq![trim_spec(lines[0])]
        } else {
            Seq::empty()
        }) + targets_model(lines.drop_first())
    }
}

/// Trims every line and drops the blank ones, keeping input order: the
/// target list of a run.
pub fn clean_targets(lines: &Vec<String>) -> (r: Vec<String>)
    ensures
        r@.map_values(|t: String| t@) == targets_model(lines@.map_values(|l: String| l@)),
{
    let ghost all = lines@.map_values(|l: String| l@);
    let mut out: Vec<String> = Vec::new();
    let n = lines.len();
    let mut i: usize = 0;
    proof {
        assert(all.skip(0) =~= all);
        assert(out@.map_values(|t: String| t@) + targets_model(all) =~= targets_model(all));
    }
    while i < n
        invariant
            n == lines@.len(),
            i <= n,
            all == lines@.map_values(|l: String| l@),
            out@.map_values(|t: String| t@) + targets_model(all.skip(i as int)) == targets_model(
                all,
            ),
        decreases n - i,
    {
        proof {
            assert(all.skip(i as int)[0] == all[i as int]);
            assert(all.skip(i as int).drop_first() =~= all.skip(i + 1));
        }
        let t = trim_line(lines[i].as_str());
        if t.as_str().unicode_len() > 0 {
            out.push(t);
        }
        proof {
            assert(out@.map_values(|t: String| t@) + targets_model(all.skip(i + 1)) =~= targets_model(
                all,
            ));
        }
        i = i + 1;
    }
    proof {
        assert(all.skip(n as int) =~= Seq::<Seq<char>>::empty());
        assert(out@.map_values(|t: String| t@) =~= targets_model(all));
    }
    out
}

} // verus!
