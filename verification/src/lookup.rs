//! Search-path lookup: splitting the search-path variable into directories,
//! forming the candidate paths for a command name, and picking the first
//! candidate for which a filesystem entry is present.

use vstd::prelude::*;

verus! {

/// The pieces of `s` between `:` separators, in order, empty pieces kept.
pub open spec fn split_colon(s: Seq<char>) -> Seq<Seq<char>>
    decreases s.len(),
{
    if s.len() == 0 {
        seq![Seq::<char>::empty()]
    } else {
        let rest = split_colon(s.drop_first());
        if s.first() == ':' {
            seq![Seq::<char>::empty()] + rest
        } else {
            seq![seq![s.first()] + rest.first()] + rest.drop_first()
        }
    }
}

pub proof fn lemma_split_colon_len(s: Seq<char>)
    ensures
        split_colon(s).len() >= 1,
    decreases s.len(),
{
    if s.len() > 0 {
        lemma_split_colon_len(s.drop_first());
    }
}

/// Length of the leading piece of `s`, up to the first `:` or the end.
pub open spec fn piece_len(s: Seq<char>) -> int
    decreases s.len(),
{
    if s.len() == 0 || s.first() == ':' {
        0
    } else {
        1 + piece_len(s.drop_first())
    }
}

pub proof fn lemma_piece_len_bounds(s: Seq<char>)
    ensures
        0 <= piece_len(s) <= s.len(),
        forall|k: int| 0 <= k < piece_len(s) ==> s[k] != ':',
        piece_len(s) < s.len() ==> s[piece_len(s)] == ':',
    decreases s.len(),
{
    if s.len() == 0 || s.first() == ':' {
    } else {
        lemma_piece_len_bounds(s.drop_first());
        assert forall|k: int| 0 <= k < piece_len(s) implies s[k] != ':' by {
            if k > 0 {
                assert(s[k] == s.drop_first()[k - 1]);
            }
        }
        if piece_len(s) < s.len() {
            assert(s[piece_len(s)] == s.drop_first()[piece_len(s) - 1]);
        }
    }
}

pub proof fn lemma_piece_len_unique(s: Seq<char>, m: int)
    requires
        0 <= m <= s.len(),
        forall|k: int| 0 <= k < m ==> s[k] != ':',
        m == s.len() || s[m] == ':',
    ensures
        piece_len(s) == m,
    decreases s.len(),
{
    if m == 0 {
    } else {
        let d = s.drop_first();
        assert forall|k: int| 0 <= k < m - 1 implies d[k] != ':' by {
            assert(d[k] == s[k + 1]);
        }
        if m - 1 < d.len() {
            assert(d[m - 1] == s[m]);
        }
        lemma_piece_len_unique(d, m - 1);
    }
}

/// Splitting on `:`: the leading piece comes first; if a separator follows it,
/// the remainder after the separator is split on its own.
pub proof fn lemma_split_colon_piece(s: Seq<char>)
    ensures
        piece_len(s) == s.len() ==> split_colon(s) == seq![s],
        piece_len(s) < s.len() ==> split_colon(s) == seq![s.take(piece_len(s))] + split_colon(
            s.skip(piece_len(s) + 1),
        ),
    decreases s.len(),
{
    lemma_piece_len_bounds(s);
    let p = piece_len(s);
    if s.len() == 0 {
        assert(split_colon(s) =~~= seq![s]);
    } else if s.first() == ':' {
        assert(p == 0);
        assert(s.drop_first() =~= s.skip(1));
        assert(s.take(0) =~= Seq::<char>::empty());
        assert(split_colon(s) =~~= seq![s.take(0)] + split_colon(s.skip(1)));
    } else {
        let d = s.drop_first();
        lemma_split_colon_piece(d);
        lemma_split_colon_len(d);
        assert(piece_len(d) == p - 1);
        if p == s.len() {
            assert(piece_len(d) == d.len());
            assert(split_colon(d) == seq![d]);
            assert(seq![s.first()] + d =~= s);
            assert(split_colon(s) =~~= seq![s]);
        } else {
            assert(split_colon(d) == seq![d.take(p - 1)] + split_colon(d.skip(p)));
            assert(split_colon(d).first() == d.take(p - 1));
            assert(split_colon(d).drop_first() =~~= split_colon(d.skip(p)));
            assert(seq![s.first()] + d.take(p - 1) =~= s.take(p));
            assert(d.skip(p) =~= s.skip(p + 1));
            assert(split_colon(s) =~~= seq![s.take(p)] + split_colon(s.skip(p + 1)));
        }
    }
}

/// Split a search-path variable's value into its directory entries.
pub fn split_search_path(s: &str) -> (dirs: Vec<String>)
    ensures
        dirs.deep_view() == split_colon(s@),
{
    let n = s.unicode_len();
    let mut dirs: Vec<String> = Vec::new();
    let mut i: usize = 0;
    proof {
        assert(dirs.deep_view() =~~= Seq::<Seq<char>>::empty());
        assert(s@.skip(0) =~= s@);
        assert(Seq::<Seq<char>>::empty() + split_colon(s@) =~~= split_colon(s@));
    }
    loop
        invariant
            i <= n,
            n == s@.len(),
            dirs.deep_view() + split_colon(s@.skip(i as int)) == split_colon(s@),
        ensures
            dirs.deep_view() == split_colon(s@),
        decreases n - i,
    {
        let ghost suffix = s@.skip(i as int);
        let start = i;
        let mut j = i;
        while j < n
            invariant
                i <= j <= n,
                n == s@.len(),
                forall|k: int| i <= k < j ==> s@[k] != ':',
            ensures
                i <= j <= n,
                forall|k: int| i <= k < j ==> s@[k] != ':',
                j == n || s@[j as int] == ':',
            decreases n - j,
        {
            if s.get_char(j) == ':' {
                break ;
            }
            j = j + 1;
        }
        let piece = s.substring_char(start, j).to_owned();
        let ghost before = dirs.deep_view();
        dirs.push(piece);
        proof {
            assert forall|k: int| 0 <= k < j - i implies suffix[k] != ':' by {
                assert(suffix[k] == s@[i + k]);
            }
            if j < n {
                assert(suffix[j - i] == s@[j as int]);
            }
            lemma_piece_len_unique(suffix, j - i);
            lemma_split_colon_piece(suffix);
            assert(suffix.take(j - i) =~= s@.subrange(i as int, j as int));
            assert(dirs.deep_view() =~~= before.push(s@.subrange(i as int, j as int)));
        }
        if j == n {
            proof {
                assert(suffix =~= s@.subrange(i as int, j as int));
                assert(dirs.deep_view() =~~= split_colon(s@));
            }
            return dirs;
        }
        proof {
            assert(suffix.skip(j - i + 1) =~= s@.skip(j + 1));
            assert(dirs.deep_view() + split_colon(s@.skip(j + 1)) =~~= split_colon(s@));
        }
        i = j + 1;
    }
}

/// The directories consulted for a given search-path variable: its pieces when
/// the variable is present, none when it is absent.
pub open spec fn search_dirs(path_var: Option<Seq<char>>) -> Seq<Seq<char>> {
    match path_var {
        Option::Some(s) => split_colon(s),
        Option::None => Seq::empty(),
    }
}

/// A directory joined with a command name by a single separator.
pub open spec fn joined_path(dir: Seq<char>, name: Seq<char>) -> Seq<char> {
    dir + seq!['/'] + name
}

/// The candidate paths probed for `name`: each directory joined with `name`,
/// in listed order, and finally `name` itself as given.
pub open spec fn candidate_paths(name: Seq<char>, dirs: Seq<Seq<char>>) -> Seq<Seq<char>> {
    Seq::new(
        dirs.len() + 1,
        |i: int|
            if i < dirs.len() {
                joined_path(dirs[i], name)
            } else {
                name
            },
    )
}

/// The first candidate marked present, searching in order.
pub open spec fn first_present(cands: Seq<Seq<char>>, present: Seq<bool>) -> Option<Seq<char>>
    decreases cands.len(),
{
    if cands.len() == 0 || present.len() == 0 {
        Option::None
    } else if present.first() {
        Option::Some(cands.first())
    } else {
        first_present(cands.drop_first(), present.drop_first())
    }
}

/// The candidate at the first present position wins, whatever is present
/// after it.
pub proof fn lemma_first_present_at(cands: Seq<Seq<char>>, present: Seq<bool>, i: int)
    requires
        present.len() == cands.len(),
        0 <= i < cands.len(),
        present[i],
        forall|k: int| 0 <= k < i ==> !present[k],
    ensures
        first_present(cands, present) == Option::Some(cands[i]),
    decreases i,
{
    if i == 0 {
    } else {
        assert(!present[0]);
        let dc = cands.drop_first();
        let dp = present.drop_first();
        assert(dp[i - 1] == present[i]);
        assert forall|k: int| 0 <= k < i - 1 implies !dp[k] by {
            assert(dp[k] == present[k + 1]);
        }
        lemma_first_present_at(dc, dp, i - 1);
        assert(dc[i - 1] == cands[i]);
    }
}

/// With no candidate present, the search yields nothing.
pub proof fn lemma_first_present_none(cands: Seq<Seq<char>>, present: Seq<bool>)
    requires
        present.len() == cands.len(),
        forall|k: int| 0 <= k < present.len() ==> !present[k],
    ensures
        first_present(cands, present) is None,
    decreases cands.len(),
{
    if cands.len() > 0 {
        assert(!present[0]);
        let dp = present.drop_first();
        assert forall|k: int| 0 <= k < dp.len() implies !dp[k] by {
            assert(dp[k] == present[k + 1]);
        }
        lemma_first_present_none(cands.drop_first(), dp);
    }
}

/// Search-path order sensitivity: when a directory holds the name and every
/// directory listed before it does not, the lookup yields that directory's
/// join with the name, whatever later directories hold.
pub proof fn lemma_earlier_directory_shadows(
    name: Seq<char>,
    dirs: Seq<Seq<char>>,
    present: Seq<bool>,
    i: int,
)
    requires
        present.len() == candidate_paths(name, dirs).len(),
        0 <= i < dirs.len(),
        present[i],
        forall|k: int| 0 <= k < i ==> !present[k],
    ensures
        first_present(candidate_paths(name, dirs), present) == Option::Some(
            joined_path(dirs[i], name),
        ),
{
    let cands = candidate_paths(name, dirs);
    assert(cands[i] == joined_path(dirs[i], name));
    lemma_first_present_at(cands, present, i);
}

/// Relies on `std::path::Path::exists`: reports whether some filesystem entry
/// is present at the given path at the moment of the call. The answer depends
/// on the state of the filesystem, so nothing is promised of it.
#[verifier::external_body]
fn path_entry_exists(path: &String) -> bool {
    std::path::Path::new(path.as_str()).exists()
}

/// Locate a command on the search path: probe each directory's join with
/// `name` in listed order, then `name` itself, and return the first candidate
/// for which a filesystem entry is present.
pub fn find_command_path(name: &str, path_var: Option<&str>) -> (r: Option<String>)
    ensures
        match r {
            Option::Some(p) => exists|present: Seq<bool>|
                present.len() == candidate_paths(name@, search_dirs(path_var.deep_view())).len()
                    && #[trigger] first_present(
                    candidate_paths(name@, search_dirs(path_var.deep_view())),
                    present,
                ) == Option::Some(p@),
            Option::None => true,
        },
{
    let ghost dirs_model = search_dirs(path_var.deep_view());
    let dirs: Vec<String> = match path_var {
        Option::Some(s) => split_search_path(s),
        Option::None => Vec::new(),
    };
    proof {
        assert(dirs.deep_view() =~~= dirs_model);
    }
    let ghost cands_model = candidate_paths(name@, dirs_model);
    let mut cands: Vec<String> = Vec::new();
    let mut k: usize = 0;
    proof {
        assert(cands.deep_view() =~~= cands_model.take(0));
    }
    while k < dirs.len()
        invariant
            k <= dirs.len(),
            dirs.deep_view() == dirs_model,
            cands_model == candidate_paths(name@, dirs_model),
            cands@.len() == k,
            cands.deep_view() == cands_model.take(k as int),
        decreases dirs.len() - k,
    {
        let mut joined = dirs[k].clone();
        joined.append("/");
        joined.append(name);
        proof {
            reveal_strlit("/");
            assert("/"@ =~= seq!['/']);
            assert(cands_model[k as int] == joined_path(dirs_model[k as int], name@));
            assert(dirs_model[k as int] == dirs@[k as int].deep_view());
            assert(joined@ == joined_path(dirs_model[k as int], name@));
        }
        let ghost joined_view = joined@;
        let ghost before_vec = cands@;
        let ghost before_dv = cands.deep_view();
        cands.push(joined);
        proof {
            assert forall|idx: int| 0 <= idx <= k implies cands.deep_view()[idx]
                == cands_model.take(k + 1)[idx] by {
                if idx < k {
                    assert(cands@[idx] == before_vec[idx]);
                    assert(before_dv[idx] == before_vec[idx].deep_view());
                    assert(before_dv[idx] == cands_model.take(k as int)[idx]);
                } else {
                    assert(cands@[idx].deep_view() == joined_view);
                }
            }
            assert(cands.deep_view() =~~= cands_model.take(k + 1));
        }
        k = k + 1;
    }
    let tail = name.to_owned();
    let ghost tail_view = tail@;
    let ghost before_vec = cands@;
    let ghost before_dv = cands.deep_view();
    cands.push(tail);
    proof {
        assert forall|idx: int| 0 <= idx < cands@.len() implies cands.deep_view()[idx]
            == cands_model[idx] by {
            if idx < before_vec.len() {
                assert(cands@[idx] == before_vec[idx]);
                assert(before_dv[idx] == before_vec[idx].deep_view());
                assert(before_dv[idx] == cands_model.take(before_vec.len() as int)[idx]);
            } else {
                assert(cands@[idx].deep_view() == tail_view);
            }
        }
        assert(cands.deep_view() =~~= cands_model);
        assert(cands@.len() == cands_model.len());
    }
    let mut i: usize = 0;
    let ghost mut probed: Seq<bool> = Seq::empty();
    while i < cands.len()
        invariant
            i <= cands.len(),
            cands_model == candidate_paths(name@, search_dirs(path_var.deep_view())),
            cands@.len() == cands_model.len(),
            cands.deep_view() == cands_model,
            probed.len() == i,
            forall|k2: int| 0 <= k2 < i ==> !probed[k2],
        decreases cands.len() - i,
    {
        let hit = path_entry_exists(&cands[i]);
        if hit {
            let found = cands[i].clone();
            proof {
                assert(cands_model[i as int] == cands@[i as int].deep_view());
                let rest = Seq::new((cands_model.len() - i - 1) as nat, |_k: int| false);
                let present = probed.push(true) + rest;
                assert(present.len() == cands_model.len());
                assert(present[i as int]);
                assert(forall|k2: int| 0 <= k2 < i ==> !present[k2]);
                lemma_first_present_at(cands_model, present, i as int);
                assert(found@ == cands_model[i as int]);
            }
            return Option::Some(found);
        }
        proof {
            probed = probed.push(false);
        }
        i = i + 1;
    }
    Option::None
}

} // verus!
