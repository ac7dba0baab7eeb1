//! The vaults on disk: which file names are vaults, and the names they are
//! listed under (sorted, without the extension).
use crate::text::{chars_of, slice_of, string_of};
use vstd::prelude::*;

verus! {

broadcast use vstd::seq_lib::group_to_multiset_ensures;

/// Text order: character by character, a proper prefix first. (On UTF-8 text
/// this is the order of `String`'s bytes.)
pub open spec fn lex_lt(a: Seq<char>, b: Seq<char>) -> bool
    decreases a.len(),
{
    if a.len() == 0 {
        b.len() > 0
    } else if b.len() == 0 {
        false
    } else if a[0] != b[0] {
        a[0] < b[0]
    } else {
        lex_lt(a.drop_first(), b.drop_first())
    }
}

pub open spec fn lex_le(a: Seq<char>, b: Seq<char>) -> bool {
    a == b || lex_lt(a, b)
}

/// Any two texts are ordered one way or the other.
pub proof fn lemma_lex_total(a: Seq<char>, b: Seq<char>)
    ensures
        lex_lt(a, b) || a == b || lex_lt(b, a),
    decreases a.len(),
{
    if a.len() > 0 && b.len() > 0 && a[0] == b[0] {
        lemma_lex_total(a.drop_first(), b.drop_first());
        if a.drop_first() == b.drop_first() {
            assert(a =~= seq![a[0]] + a.drop_first());
            assert(b =~= seq![b[0]] + b.drop_first());
        }
    } else if a.len() == 0 && b.len() == 0 {
        assert(a =~= b);
    } else if a.len() > 0 && b.len() > 0 {
    }
}

/// The order is transitive.
pub proof fn lemma_lex_trans(a: Seq<char>, b: Seq<char>, c: Seq<char>)
    requires
        lex_lt(a, b),
        lex_lt(b, c),
    ensures
        lex_lt(a, c),
    decreases a.len(),
{
    if a.len() > 0 && b.len() > 0 && c.len() > 0 && a[0] == b[0] && b[0] == c[0] {
        lemma_lex_trans(a.drop_first(), b.drop_first(), c.drop_first());
    }
}

/// No text comes before itself.
pub proof fn lemma_lex_irreflexive(a: Seq<char>)
    ensures
        !lex_lt(a, a),
    decreases a.len(),
{
    if a.len() > 0 {
        lemma_lex_irreflexive(a.drop_first());
    }
}

/// Decides `lex_lt`.
pub fn lex_less(a: &Vec<char>, b: &Vec<char>) -> (r: bool)
    ensures
        r == lex_lt(a@, b@),
{
    let mut i: usize = 0;
    assert(a@.skip(0) =~= a@);
    assert(b@.skip(0) =~= b@);
    loop
        invariant
            i <= a@.len(),
            i <= b@.len(),
            lex_lt(a@, b@) == lex_lt(a@.skip(i as int), b@.skip(i as int)),
        decreases a@.len() - i,
    {
        if i == a.len() {
            return i < b.len();
        }
        if i == b.len() {
            return false;
        }
        if a[i] != b[i] {
            return a[i] < b[i];
        }
        assert(a@.skip(i as int).drop_first() =~= a@.skip(i + 1));
        assert(b@.skip(i as int).drop_first() =~= b@.skip(i + 1));
        i = i + 1;
    }
}

/// A list of texts in order.
pub open spec fn sorted(s: Seq<Seq<char>>) -> bool {
    forall|i: int, j: int| 0 <= i < j < s.len() ==> lex_le(#[trigger] s[i], #[trigger] s[j])
}

/// The texts of a list of strings.
pub open spec fn texts(v: Seq<String>) -> Seq<Seq<char>> {
    v.map_values(|s: String| s@)
}

/// Sorts strings into text order (what `sort` does to a `Vec<String>`): the
/// result is in order and holds the same texts, as often each.
pub fn sort_names(names: Vec<String>) -> (r: Vec<String>)
    ensures
        sorted(texts(r@)),
        texts(r@).to_multiset() == texts(names@).to_multiset(),
{
    let mut out: Vec<String> = Vec::new();
    let mut rest = names;
    let ghost all = texts(rest@);
    let n = rest.len();
    let mut i: usize = 0;
    assert(texts(out@).to_multiset() =~= all.take(0).to_multiset()) by {
        assert(texts(out@) =~= Seq::<Seq<char>>::empty());
        assert(all.take(0) =~= Seq::<Seq<char>>::empty());
    }
    while i < n
        invariant
            n == all.len(),
            i <= n,
            rest@.len() == n - i,
            texts(rest@) == all.skip(i as int),
            sorted(texts(out@)),
            texts(out@).to_multiset() == all.take(i as int).to_multiset(),
        decreases n - i,
    {
        let ghost prev = rest@;
        let x = rest.remove(0);
        assert(all.skip(i as int)[0] == x@);
        assert forall|k: int| 0 <= k < rest@.len() implies texts(rest@)[k] == all.skip(i + 1)[k] by {
            assert(rest@[k] == prev[k + 1]);
            assert(texts(prev)[k + 1] == all.skip(i as int)[k + 1]);
        }
        assert(texts(rest@) =~= all.skip(i + 1));
        let xc = chars_of(x.as_str());
        // The first place whose text comes after x.
        let mut k: usize = 0;
        while k < out.len()
            invariant
                k <= out@.len(),
                xc@ == x@,
                forall|j: int| 0 <= j < k ==> lex_le(#[trigger] texts(out@)[j], x@),
            ensures
                k <= out@.len(),
                forall|j: int| 0 <= j < k ==> lex_le(#[trigger] texts(out@)[j], x@),
                k < out@.len() ==> lex_lt(x@, texts(out@)[k as int]),
            decreases out@.len() - k,
        {
            let oc = chars_of(out[k].as_str());
            if lex_less(&xc, &oc) {
                break;
            }
            proof {
                lemma_lex_total(x@, out@[k as int]@);
            }
            k = k + 1;
        }
        let ghost before = texts(out@);
        proof {
            if k < out@.len() {
                assert(lex_lt(x@, before[k as int]));
            }
        }
        out.insert(k, x);
        let ghost after = texts(out@);
        assert(after =~= before.insert(k as int, x@));
        assert(sorted(after)) by {
            assert forall|p: int, q: int| 0 <= p < q < after.len() implies lex_le(
                #[trigger] after[p],
                #[trigger] after[q],
            ) by {
                if q < k {
                    assert(after[p] == before[p] && after[q] == before[q]);
                } else if q == k {
                    assert(after[p] == before[p]);
                } else if p == k {
                    assert(after[q] == before[q - 1]);
                    assert(lex_lt(x@, before[k as int]));
                    if q - 1 > k {
                        assert(lex_le(before[k as int], before[q - 1]));
                        if lex_lt(before[k as int], before[q - 1]) {
                            lemma_lex_trans(x@, before[k as int], before[q - 1]);
                        }
                    }
                } else if p < k {
                    assert(after[p] == before[p] && after[q] == before[q - 1]);
                    assert(lex_le(before[p], x@));
                    assert(k < before.len());
                    assert(lex_lt(x@, before[k as int]));
                    if q - 1 > k {
                        assert(lex_le(before[k as int], before[q - 1]));
                    }
                    assert(lex_le(x@, before[q - 1])) by {
                        if q - 1 > k && lex_lt(before[k as int], before[q - 1]) {
                            lemma_lex_trans(x@, before[k as int], before[q - 1]);
                        }
                    }
                    if lex_lt(before[p], x@) && lex_lt(x@, before[q - 1]) {
                        lemma_lex_trans(before[p], x@, before[q - 1]);
                    }
                } else {
                    assert(after[p] == before[p - 1] && after[q] == before[q - 1]);
                }
            }
        }
        assert(after.remove(k as int) =~= before);
        assert(all.take(i + 1) =~= all.take(i as int).push(x@));
        assert(after.to_multiset() =~= before.to_multiset().insert(x@)) by {
            assert(after[k as int] == x@);
            assert(after.contains(x@));
        }
        i = i + 1;
    }
    assert(all.take(n as int) =~= all);
    out
}

/// Where the last `.` of a text is.
pub open spec fn last_dot(s: Seq<char>) -> Option<int>
    decreases s.len(),
{
    if s.len() == 0 {
        None
    } else if s.last() == '.' {
        Some(s.len() - 1)
    } else {
        last_dot(s.drop_last())
    }
}

/// `Path::extension` of a file name: what follows the last `.`, where that
/// `.` is not the first character.
pub open spec fn extension(name: Seq<char>) -> Option<Seq<char>> {
    match last_dot(name) {
        Some(k) => if k > 0 {
            Some(name.skip(k + 1))
        } else {
            None
        },
        None => None,
    }
}

/// `Path::file_stem` of a file name, the name itself where it has none (`..`):
/// what comes before the last `.`, where that `.` is not the first character.
pub open spec fn stem(name: Seq<char>) -> Seq<char> {
    if name == ".."@ {
        name
    } else {
        match last_dot(name) {
            Some(k) => if k > 0 {
                name.take(k)
            } else {
                name
            },
            None => name,
        }
    }
}

pub proof fn lemma_last_dot(s: Seq<char>)
    ensures
        last_dot(s) matches Some(k) ==> 0 <= k < s.len() && s[k] == '.' && forall|j: int|
            k < j < s.len() ==> s[j] != '.',
        last_dot(s) is None ==> forall|j: int| 0 <= j < s.len() ==> s[j] != '.',
    decreases s.len(),
{
    if s.len() > 0 && s.last() != '.' {
        lemma_last_dot(s.drop_last());
        assert forall|j: int| 0 <= j < s.len() - 1 implies s.drop_last()[j] == s[j] by {}
    }
}

/// Finds `last_dot`.
pub fn find_last_dot(s: &Vec<char>) -> (r: Option<usize>)
    ensures
        match r {
            Some(k) => last_dot(s@) == Some(k as int),
            None => last_dot(s@) is None,
        },
{
    let mut j: usize = s.len();
    assert(s@.take(j as int) =~= s@);
    while j > 0
        invariant
            j <= s@.len(),
            last_dot(s@) == last_dot(s@.take(j as int)),
        decreases j,
    {
        if s[j - 1] == '.' {
            return Some(j - 1);
        }
        assert(s@.take(j as int).drop_last() =~= s@.take(j - 1));
        j = j - 1;
    }
    None
}

/// The file names that are vaults: those whose extension is `2fa`, in order.
pub open spec fn vault_file_names(names: Seq<Seq<char>>) -> Seq<Seq<char>> {
    names.filter(|n: Seq<char>| extension(n) == Some("2fa"@))
}

/// Keeps the file names that are vaults (see `vault_file_names`).
pub fn vault_files(names: Vec<String>) -> (r: Vec<String>)
    ensures
        texts(r@) == vault_file_names(texts(names@)),
{
    let ext = chars_of("2fa");
    let mut out: Vec<String> = Vec::new();
    let mut rest = names;
    let ghost all = texts(rest@);
    let n = rest.len();
    let mut i: usize = 0;
    proof {
        reveal(Seq::filter);
    }
    assert(texts(out@) =~= vault_file_names(all.take(0)));
    while i < n
        invariant
            n == all.len(),
            i <= n,
            rest@.len() == n - i,
            texts(rest@) == all.skip(i as int),
            ext@ == "2fa"@,
            texts(out@) == vault_file_names(all.take(i as int)),
        decreases n - i,
    {
        proof {
            reveal(Seq::filter);
        }
        let ghost prev = rest@;
        let x = rest.remove(0);
        assert(all.skip(i as int)[0] == x@);
        assert forall|k: int| 0 <= k < rest@.len() implies texts(rest@)[k] == all.skip(i + 1)[k] by {
            assert(rest@[k] == prev[k + 1]);
            assert(texts(prev)[k + 1] == all.skip(i as int)[k + 1]);
        }
        assert(texts(rest@) =~= all.skip(i + 1));
        assert(all.take(i + 1).drop_last() =~= all.take(i as int));
        assert(all.take(i + 1).last() == x@);
        let xc = chars_of(x.as_str());
        proof {
            lemma_last_dot(xc@);
        }
        let keep = match find_last_dot(&xc) {
            Some(k) => k > 0 && crate::text::chars_eq(&slice_of(&xc, k + 1, xc.len()), &ext),
            None => false,
        };
        if keep {
            let ghost before = out@;
            out.push(x);
            assert(texts(out@) =~= texts(before).push(x@));
        }
        i = i + 1;
    }
    assert(all.take(n as int) =~= all);
    out
}

/// The names under which vault files are listed: sorted, each without its
/// extension.
pub fn vault_names(files: Vec<String>) -> (r: Vec<String>)
    ensures
        exists|s: Seq<Seq<char>>|
            #![trigger sorted(s)]
            sorted(s) && s.to_multiset() == texts(files@).to_multiset() && texts(r@) == s.map_values(
                |n: Seq<char>| stem(n),
            ),
{
    let sorted_files = sort_names(files);
    let ghost s = texts(sorted_files@);
    let mut out: Vec<String> = Vec::new();
    let mut i: usize = 0;
    let dots = chars_of("..");
    while i < sorted_files.len()
        invariant
            i <= sorted_files@.len(),
            s == texts(sorted_files@),
            dots@ == ".."@,
            texts(out@) == s.take(i as int).map_values(|n: Seq<char>| stem(n)),
        decreases sorted_files.len() - i,
    {
        let xc = chars_of(sorted_files[i].as_str());
        proof {
            lemma_last_dot(xc@);
        }
        let st = if crate::text::chars_eq(&xc, &dots) {
            string_of(&xc)
        } else {
            match find_last_dot(&xc) {
                Some(k) => if k > 0 {
                    string_of(&slice_of(&xc, 0, k))
                } else {
                    string_of(&xc)
                },
                None => string_of(&xc),
            }
        };
        let ghost before = out@;
        out.push(st);
        assert(texts(out@) =~= s.take(i + 1).map_values(|n: Seq<char>| stem(n))) by {
            assert(texts(out@) =~= texts(before).push(st@));
            assert(s.take(i + 1) =~= s.take(i as int).push(s[i as int]));
        }
        i = i + 1;
    }
    assert(s.take(sorted_files.len() as int) =~= s);
    out
}

/// A vault saved under a non-empty name (its file is the name and `.2fa`) is
/// listed under that name: its file has the vault extension and the name as
/// its stem.
pub proof fn lemma_vault_name_roundtrip(name: Seq<char>)
    requires
        name.len() > 0,
    ensures
        extension(name + ".2fa"@) == Some("2fa"@),
        stem(name + ".2fa"@) == name,
{
    reveal_strlit(".2fa");
    reveal_strlit("2fa");
    reveal_strlit("..");
    let f = name + ".2fa"@;
    let k = name.len() as int;
    assert(f.drop_last().drop_last().drop_last() =~= name + "."@) by {
        reveal_strlit(".");
    }
    assert(last_dot(f) == Some(k)) by {
        reveal_with_fuel(last_dot, 5);
        assert(f.len() == k + 4);
        assert(f.last() == 'a');
        assert(f.drop_last().last() == 'f');
        assert(f.drop_last().drop_last().last() == '2');
        assert(f.drop_last().drop_last().drop_last().last() == '.');
    }
    assert(f.skip(k + 1) =~= "2fa"@);
    assert(f.take(k) =~= name);
    assert(f != ".."@) by {
        assert(f.len() >= 5);
    }
}

} // verus!
