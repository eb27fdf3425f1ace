//! Textual groundwork: the whitespace model, tokenization of an input line,
//! joining tokens with single spaces, and rendering an exit status in decimal.

use vstd::prelude::*;

verus! {

/// The whitespace characters on which an input line is split into tokens.
pub open spec fn is_space_char(c: char) -> bool {
    c == ' ' || c == '\t' || c == '\r' || c == '\n'
}

/// Executable mirror of [`is_space_char`].
pub fn is_space(c: char) -> (r: bool)
    ensures
        r == is_space_char(c),
{
    c == ' ' || c == '\t' || c == '\r' || c == '\n'
}

/// The tokens of `s`: maximal runs of non-whitespace characters, in order.
/// Runs of whitespace separate tokens and never produce empty tokens.
pub open spec fn split_ws(s: Seq<char>) -> Seq<Seq<char>>
    decreases s.len(),
{
    if s.len() == 0 {
        Seq::empty()
    } else if is_space_char(s.first()) {
        split_ws(s.drop_first())
    } else {
        let rest = split_ws(s.drop_first());
        if s.len() > 1 && !is_space_char(s[1]) {
            seq![seq![s.first()] + rest.first()] + rest.drop_first()
        } else {
            seq![seq![s.first()]] + rest
        }
    }
}

/// Length of the leading run of non-whitespace characters of `s`.
pub open spec fn token_len(s: Seq<char>) -> int
    decreases s.len(),
{
    if s.len() == 0 || is_space_char(s.first()) {
        0
    } else {
        1 + token_len(s.drop_first())
    }
}

pub proof fn lemma_token_len_bounds(s: Seq<char>)
    ensures
        0 <= token_len(s) <= s.len(),
        s.len() > 0 && !is_space_char(s[0]) ==> token_len(s) >= 1,
        forall|k: int| 0 <= k < token_len(s) ==> !is_space_char(s[k]),
        token_len(s) < s.len() ==> is_space_char(s[token_len(s)]),
    decreases s.len(),
{
    if s.len() == 0 || is_space_char(s.first()) {
    } else {
        lemma_token_len_bounds(s.drop_first());
        assert forall|k: int| 0 <= k < token_len(s) implies !is_space_char(s[k]) by {
            if k > 0 {
                assert(s[k] == s.drop_first()[k - 1]);
            }
        }
        if token_len(s) < s.len() {
            assert(s[token_len(s)] == s.drop_first()[token_len(s) - 1]);
        }
    }
}

/// The leading token's length is the unique cut: `m` non-whitespace characters
/// followed by the end of the string or a whitespace character.
pub proof fn lemma_token_len_unique(s: Seq<char>, m: int)
    requires
        0 <= m <= s.len(),
        forall|k: int| 0 <= k < m ==> !is_space_char(s[k]),
        m == s.len() || is_space_char(s[m]),
    ensures
        token_len(s) == m,
    decreases s.len(),
{
    if m == 0 {
    } else {
        assert(!is_space_char(s[0]));
        let d = s.drop_first();
        assert forall|k: int| 0 <= k < m - 1 implies !is_space_char(d[k]) by {
            assert(d[k] == s[k + 1]);
        }
        if m - 1 < d.len() {
            assert(d[m - 1] == s[m]);
        }
        lemma_token_len_unique(d, m - 1);
    }
}

/// Splitting a string that starts with a token: the token comes first, and the
/// remainder is split on its own.
pub proof fn lemma_split_ws_token(s: Seq<char>)
    requires
        s.len() > 0,
        !is_space_char(s[0]),
    ensures
        split_ws(s) == seq![s.take(token_len(s))] + split_ws(s.skip(token_len(s))),
    decreases s.len(),
{
    lemma_token_len_bounds(s);
    let t = token_len(s);
    let d = s.drop_first();
    if s.len() == 1 || is_space_char(s[1]) {
        if s.len() > 1 {
            assert(d[0] == s[1]);
        }
        assert(token_len(d) == 0);
        assert(t == 1);
        assert(s.take(1) =~= seq![s[0]]);
        assert(s.skip(1) =~= d);
        assert(split_ws(s) =~~= seq![s.take(1)] + split_ws(s.skip(1)));
    } else {
        assert(d[0] == s[1]);
        lemma_split_ws_token(d);
        let td = token_len(d);
        assert(t == 1 + td);
        let rest = split_ws(d);
        assert(rest == seq![d.take(td)] + split_ws(d.skip(td)));
        assert(rest.first() == d.take(td));
        assert(rest.drop_first() =~~= split_ws(d.skip(td)));
        assert(seq![s.first()] + d.take(td) =~= s.take(t));
        assert(d.skip(td) =~= s.skip(t));
        assert(split_ws(s) =~~= seq![s.take(t)] + split_ws(s.skip(t)));
    }
}

/// Splitting a string that starts with a whitespace character drops it.
pub proof fn lemma_split_ws_space(s: Seq<char>)
    requires
        s.len() > 0,
        is_space_char(s[0]),
    ensures
        split_ws(s) == split_ws(s.skip(1)),
{
    assert(s.drop_first() =~= s.skip(1));
}

/// Split an input line into its whitespace-separated tokens.
pub fn tokenize(line: &str) -> (tokens: Vec<String>)
    ensures
        tokens.deep_view() == split_ws(line@),
{
    let n = line.unicode_len();
    let mut tokens: Vec<String> = Vec::new();
    let mut i: usize = 0;
    proof {
        assert(line@.skip(0) =~= line@);
        assert(tokens.deep_view() =~~= Seq::<Seq<char>>::empty());
        assert(Seq::<Seq<char>>::empty() + split_ws(line@) =~~= split_ws(line@));
    }
    while i < n
        invariant
            i <= n,
            n == line@.len(),
            tokens.deep_view() + split_ws(line@.skip(i as int)) == split_ws(line@),
        decreases n - i,
    {
        let c = line.get_char(i);
        if is_space(c) {
            proof {
                lemma_split_ws_space(line@.skip(i as int));
                assert(line@.skip(i as int).skip(1) =~= line@.skip(i + 1));
            }
            i = i + 1;
        } else {
            let ghost suffix = line@.skip(i as int);
            let start = i;
            let mut j = i + 1;
            while j < n
                invariant
                    i < j <= n,
                    n == line@.len(),
                    forall|k: int| i <= k < j ==> !is_space_char(line@[k]),
                ensures
                    i < j <= n,
                    forall|k: int| i <= k < j ==> !is_space_char(line@[k]),
                    j == n || is_space_char(line@[j as int]),
                decreases n - j,
            {
                let cj = line.get_char(j);
                if is_space(cj) {
                    break ;
                }
                j = j + 1;
            }
            let token = line.substring_char(start, j);
            let owned = token.to_owned();
            let ghost before = tokens.deep_view();
            tokens.push(owned);
            proof {
                assert forall|k: int| 0 <= k < j - i implies !is_space_char(suffix[k]) by {
                    assert(suffix[k] == line@[i + k]);
                }
                if j < n {
                    assert(suffix[j - i] == line@[j as int]);
                }
                lemma_token_len_unique(suffix, j - i);
                lemma_split_ws_token(suffix);
                assert(suffix.take(j - i) =~= line@.subrange(i as int, j as int));
                assert(suffix.skip(j - i) =~= line@.skip(j as int));
                assert(tokens.deep_view() =~~= before.push(token@));
                assert(tokens.deep_view() + split_ws(line@.skip(j as int)) =~~= split_ws(line@));
            }
            i = j;
        }
    }
    proof {
        assert(line@.skip(n as int) =~= Seq::<char>::empty());
        assert(tokens.deep_view() =~~= split_ws(line@));
    }
    tokens
}

/// The items joined with a single space between consecutive items.
pub open spec fn join_spaces(items: Seq<Seq<char>>) -> Seq<char>
    decreases items.len(),
{
    if items.len() == 0 {
        Seq::empty()
    } else if items.len() == 1 {
        items[0]
    } else {
        items[0] + seq![' '] + join_spaces(items.drop_first())
    }
}

/// Join the given tokens with single spaces.
pub fn join_all(items: &Vec<String>) -> (r: String)
    ensures
        r@ == join_spaces(items.deep_view()),
{
    let ghost model = items.deep_view();
    let mut r = String::new();
    let mut i: usize = 0;
    while i < items.len()
        invariant
            i <= items.len(),
            model == items.deep_view(),
            i == 0 ==> r@ == Seq::<char>::empty(),
            0 < i < items.len() ==> join_spaces(model) == r@ + seq![' '] + join_spaces(
                model.skip(i as int),
            ),
            i > 0 && i == items.len() ==> r@ == join_spaces(model),
        decreases items.len() - i,
    {
        proof {
            assert(model.skip(i as int).drop_first() =~~= model.skip(i + 1));
            assert(model.skip(i as int)[0] == model[i as int]);
        }
        if i == 0 {
            r = r.concat(items[i].as_str());
            proof {
                assert(model.skip(0) =~~= model);
            }
        } else {
            r = r.concat(" ").concat(items[i].as_str());
            proof {
                reveal_strlit(" ");
                assert(" "@ =~= seq![' ']);
            }
        }
        i = i + 1;
    }
    r
}

/// The character for the decimal digit `d`.
pub open spec fn digit_char(d: int) -> char {
    if d == 0 {
        '0'
    } else if d == 1 {
        '1'
    } else if d == 2 {
        '2'
    } else if d == 3 {
        '3'
    } else if d == 4 {
        '4'
    } else if d == 5 {
        '5'
    } else if d == 6 {
        '6'
    } else if d == 7 {
        '7'
    } else if d == 8 {
        '8'
    } else {
        '9'
    }
}

/// The decimal digits of `n`, most significant first, without a sign.
pub open spec fn dec_digits(n: nat) -> Seq<char>
    decreases n,
{
    if n < 10 {
        seq![digit_char(n as int)]
    } else {
        dec_digits(n / 10) + seq![digit_char((n % 10) as int)]
    }
}

/// The decimal rendering of `v`, with a leading minus sign when negative.
pub open spec fn dec_text(v: int) -> Seq<char> {
    if v < 0 {
        seq!['-'] + dec_digits((-v) as nat)
    } else {
        dec_digits(v as nat)
    }
}

fn digit_str(d: u8) -> (r: &'static str)
    requires
        d < 10,
    ensures
        r@ == seq![digit_char(d as int)],
{
    proof {
        reveal_strlit("0");
        reveal_strlit("1");
        reveal_strlit("2");
        reveal_strlit("3");
        reveal_strlit("4");
        reveal_strlit("5");
        reveal_strlit("6");
        reveal_strlit("7");
        reveal_strlit("8");
        reveal_strlit("9");
        assert("0"@ =~= seq!['0']);
        assert("1"@ =~= seq!['1']);
        assert("2"@ =~= seq!['2']);
        assert("3"@ =~= seq!['3']);
        assert("4"@ =~= seq!['4']);
        assert("5"@ =~= seq!['5']);
        assert("6"@ =~= seq!['6']);
        assert("7"@ =~= seq!['7']);
        assert("8"@ =~= seq!['8']);
        assert("9"@ =~= seq!['9']);
    }
    match d {
        0 => "0",
        1 => "1",
        2 => "2",
        3 => "3",
        4 => "4",
        5 => "5",
        6 => "6",
        7 => "7",
        8 => "8",
        _ => "9",
    }
}

fn dec_digits_exec(n: u64) -> (r: String)
    ensures
        r@ == dec_digits(n as nat),
    decreases n,
{
    if n < 10 {
        String::from_str(digit_str(n as u8))
    } else {
        let high = dec_digits_exec(n / 10);
        high.concat(digit_str((n % 10) as u8))
    }
}

/// Render an exit status code in decimal.
pub fn status_code_text(code: i32) -> (r: String)
    ensures
        r@ == dec_text(code as int),
{
    if code >= 0 {
        dec_digits_exec(code as u64)
    } else {
        let magnitude = -(code as i64);
        let digits = dec_digits_exec(magnitude as u64);
        proof {
            reveal_strlit("-");
            assert("-"@ =~= seq!['-']);
            assert(magnitude as u64 as nat == (-(code as int)) as nat);
        }
        String::from_str("-").concat(digits.as_str())
    }
}

/// Character equality of two string slices.
pub fn str_eq(a: &str, b: &str) -> (r: bool)
    ensures
        r == (a@ == b@),
{
    let n = a.unicode_len();
    if n != b.unicode_len() {
        return false;
    }
    let mut i: usize = 0;
    while i < n
        invariant
            i <= n,
            n == a@.len(),
            n == b@.len(),
            forall|k: int| 0 <= k < i ==> a@[k] == b@[k],
        decreases n - i,
    {
        if a.get_char(i) != b.get_char(i) {
            return false;
        }
        i = i + 1;
    }
    proof {
        assert(a@ =~= b@);
    }
    true
}

} // verus!
