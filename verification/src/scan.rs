//! The placeholder grammar. A variable reference is the literal text
//! `{{ name }}` and a component reference is `{{ components/name }}`, where
//! `name` is a run of ASCII letters, digits, hyphens or underscores, and the
//! single space of padding on each side is required. These functions locate
//! such tokens and collect the referenced names.

use vstd::prelude::*;

verus! {

/// Characters allowed in a placeholder name.
pub open spec fn is_name_char(c: char) -> bool {
    ||| 97 <= c as int && c as int <= 122  // 'a' ..= 'z'
    ||| 65 <= c as int && c as int <= 90  // 'A' ..= 'Z'
    ||| 48 <= c as int && c as int <= 57  // '0' ..= '9'
    ||| c as int == 45  // '-'
    ||| c as int == 95  // '_'
}

fn name_char(c: char) -> (r: bool)
    ensures
        r == is_name_char(c),
{
    let u = c as u32;
    (u >= 97 && u <= 122) || (u >= 65 && u <= 90) || (u >= 48 && u <= 57) || u == 45 || u == 95
}

/// The first position at or after `j` holding a character that cannot belong
/// to a name.
pub open spec fn name_end(s: Seq<char>, j: int) -> int
    decreases s.len() - j,
{
    if j < 0 || j >= s.len() || !is_name_char(s[j]) {
        j
    } else {
        name_end(s, j + 1)
    }
}

pub proof fn lemma_name_end(s: Seq<char>, j: int)
    requires
        0 <= j <= s.len(),
    ensures
        j <= name_end(s, j) <= s.len(),
        forall|k: int| j <= k < name_end(s, j) ==> is_name_char(s[k]),
        name_end(s, j) < s.len() ==> !is_name_char(s[name_end(s, j)]),
    decreases s.len() - j,
{
    if j < s.len() && is_name_char(s[j]) {
        lemma_name_end(s, j + 1);
    }
}

fn find_name_end(s: &str, j: usize) -> (r: usize)
    requires
        j <= s@.len(),
    ensures
        r as int == name_end(s@, j as int),
{
    let n = s.unicode_len();
    let mut k = j;
    while k < n && name_char(s.get_char(k))
        invariant
            n == s@.len(),
            j <= k <= n,
            name_end(s@, j as int) == name_end(s@, k as int),
        decreases n - k,
    {
        k = k + 1;
    }
    k
}

/// A variable token `{{ name }}` starts at position `i`.
pub open spec fn var_token_at(s: Seq<char>, i: int) -> bool {
    &&& 0 <= i
    &&& i + 3 <= s.len()
    &&& s[i] == '{' && s[i + 1] == '{' && s[i + 2] == ' '
    &&& {
        let e = name_end(s, i + 3);
        e + 3 <= s.len() && s[e] == ' ' && s[e + 1] == '}' && s[e + 2] == '}'
    }
}

/// The name inside the variable token starting at `i`.
pub open spec fn var_name_at(s: Seq<char>, i: int) -> Seq<char> {
    s.subrange(i + 3, name_end(s, i + 3))
}

/// The position just past the variable token starting at `i`.
pub open spec fn var_end_at(s: Seq<char>, i: int) -> int {
    name_end(s, i + 3) + 3
}

/// A component token `{{ components/name }}` starts at position `i`.
pub open spec fn comp_token_at(s: Seq<char>, i: int) -> bool {
    &&& 0 <= i
    &&& i + 14 <= s.len()
    &&& s[i] == '{' && s[i + 1] == '{' && s[i + 2] == ' '
    &&& s[i + 3] == 'c' && s[i + 4] == 'o' && s[i + 5] == 'm' && s[i + 6] == 'p'
    &&& s[i + 7] == 'o' && s[i + 8] == 'n' && s[i + 9] == 'e' && s[i + 10] == 'n'
    &&& s[i + 11] == 't' && s[i + 12] == 's' && s[i + 13] == '/'
    &&& {
        let e = name_end(s, i + 14);
        e + 3 <= s.len() && s[e] == ' ' && s[e + 1] == '}' && s[e + 2] == '}'
    }
}

/// The name inside the component token starting at `i`.
pub open spec fn comp_name_at(s: Seq<char>, i: int) -> Seq<char> {
    s.subrange(i + 14, name_end(s, i + 14))
}

/// The position just past the component token starting at `i`.
pub open spec fn comp_end_at(s: Seq<char>, i: int) -> int {
    name_end(s, i + 14) + 3
}

/// A component token is never also a variable token: the slash after
/// `components` cannot close a variable name.
pub proof fn lemma_comp_not_var(s: Seq<char>, i: int)
    requires
        comp_token_at(s, i),
    ensures
        !var_token_at(s, i),
        i + 17 <= comp_end_at(s, i) <= s.len(),
{
    lemma_name_end(s, i + 14);
    assert(name_end(s, i + 3) == name_end(s, i + 4));
    assert(name_end(s, i + 4) == name_end(s, i + 5));
    assert(name_end(s, i + 5) == name_end(s, i + 6));
    assert(name_end(s, i + 6) == name_end(s, i + 7));
    assert(name_end(s, i + 7) == name_end(s, i + 8));
    assert(name_end(s, i + 8) == name_end(s, i + 9));
    assert(name_end(s, i + 9) == name_end(s, i + 10));
    assert(name_end(s, i + 10) == name_end(s, i + 11));
    assert(name_end(s, i + 11) == name_end(s, i + 12));
    assert(name_end(s, i + 12) == name_end(s, i + 13));
    assert(name_end(s, i + 13) == i + 13);
}

/// A variable token spans at least six characters and ends within the text.
pub proof fn lemma_var_token_bounds(s: Seq<char>, i: int)
    requires
        var_token_at(s, i),
    ensures
        i + 6 <= var_end_at(s, i) <= s.len(),
    decreases 0int,
{
    lemma_name_end(s, i + 3);
}

/// No token of either kind starts strictly inside a variable token.
pub proof fn lemma_no_token_inside_var(s: Seq<char>, i: int, k: int)
    requires
        var_token_at(s, i),
        i < k < var_end_at(s, i),
    ensures
        !var_token_at(s, k),
        !comp_token_at(s, k),
{
    lemma_name_end(s, i + 3);
    let e = name_end(s, i + 3);
    if k + 3 <= s.len() && s[k] == '{' && s[k + 1] == '{' {
        assert(i + 3 <= k + 1 < e ==> is_name_char(s[k + 1]));
        assert(false);
    }
}

/// No token of either kind starts strictly inside a component token.
pub proof fn lemma_no_token_inside_comp(s: Seq<char>, i: int, k: int)
    requires
        comp_token_at(s, i),
        i < k < comp_end_at(s, i),
    ensures
        !var_token_at(s, k),
        !comp_token_at(s, k),
{
    lemma_name_end(s, i + 14);
    let e = name_end(s, i + 14);
    if k + 3 <= s.len() && s[k] == '{' && s[k + 1] == '{' {
        assert(i + 14 <= k + 1 < e ==> is_name_char(s[k + 1]));
        assert(false);
    }
}

/// Whether a variable token starts at `i`; on success, the position just past
/// it.
pub fn var_token_end(s: &str, i: usize) -> (r: Option<usize>)
    requires
        i <= s@.len(),
    ensures
        match r {
            Some(e) => var_token_at(s@, i as int) && e as int == var_end_at(s@, i as int),
            None => !var_token_at(s@, i as int),
        },
{
    let n = s.unicode_len();
    if !crate::text::has_match_at(s, "{{ ", i) {
        proof {
            reveal_strlit("{{ ");
            if var_token_at(s@, i as int) {
                assert(s@.subrange(i as int, i + 3) =~= "{{ "@);
            }
        }
        return None;
    }
    proof {
        reveal_strlit("{{ ");
        assert(s@[i as int] == s@.subrange(i as int, i + 3)[0]);
        assert(s@[i + 1] == s@.subrange(i as int, i + 3)[1]);
        assert(s@[i + 2] == s@.subrange(i as int, i + 3)[2]);
    }
    let e = find_name_end(s, i + 3);
    proof {
        lemma_name_end(s@, i + 3);
    }
    if n - e < 3 {
        return None;
    }
    if crate::text::has_match_at(s, " }}", e) {
        proof {
            reveal_strlit(" }}");
            assert(s@[e as int] == s@.subrange(e as int, e + 3)[0]);
            assert(s@[e + 1] == s@.subrange(e as int, e + 3)[1]);
            assert(s@[e + 2] == s@.subrange(e as int, e + 3)[2]);
        }
        Some(e + 3)
    } else {
        proof {
            reveal_strlit(" }}");
            if var_token_at(s@, i as int) {
                assert(s@.subrange(e as int, e + 3) =~= " }}"@);
            }
        }
        None
    }
}

/// Whether a component token starts at `i`; on success, the position just
/// past it.
pub fn comp_token_end(s: &str, i: usize) -> (r: Option<usize>)
    requires
        i <= s@.len(),
    ensures
        match r {
            Some(e) => comp_token_at(s@, i as int) && e as int == comp_end_at(s@, i as int),
            None => !comp_token_at(s@, i as int),
        },
{
    let n = s.unicode_len();
    if !crate::text::has_match_at(s, "{{ components/", i) {
        proof {
            reveal_strlit("{{ components/");
            if comp_token_at(s@, i as int) {
                assert(s@.subrange(i as int, i + 14) =~= "{{ components/"@);
            }
        }
        return None;
    }
    proof {
        reveal_strlit("{{ components/");
        crate::text::lemma_match_at_chars(s@, "{{ components/"@, i as int);
    }
    let e = find_name_end(s, i + 14);
    proof {
        lemma_name_end(s@, i + 14);
    }
    if n - e < 3 {
        return None;
    }
    if crate::text::has_match_at(s, " }}", e) {
        proof {
            reveal_strlit(" }}");
            reveal_strlit("{{ components/");
            assert(s@[e as int] == s@.subrange(e as int, e + 3)[0]);
            assert(s@[e + 1] == s@.subrange(e as int, e + 3)[1]);
            assert(s@[e + 2] == s@.subrange(e as int, e + 3)[2]);
            assert(s@[i as int] == s@.subrange(i as int, i + 14)[0]);
            assert(s@[i + 1] == s@.subrange(i as int, i + 14)[1]);
            assert(s@[i + 2] == s@.subrange(i as int, i + 14)[2]);
            assert(s@[i + 3] == s@.subrange(i as int, i + 14)[3]);
            assert(s@[i + 4] == s@.subrange(i as int, i + 14)[4]);
            assert(s@[i + 5] == s@.subrange(i as int, i + 14)[5]);
            assert(s@[i + 6] == s@.subrange(i as int, i + 14)[6]);
            assert(s@[i + 7] == s@.subrange(i as int, i + 14)[7]);
            assert(s@[i + 8] == s@.subrange(i as int, i + 14)[8]);
            assert(s@[i + 9] == s@.subrange(i as int, i + 14)[9]);
            assert(s@[i + 10] == s@.subrange(i as int, i + 14)[10]);
            assert(s@[i + 11] == s@.subrange(i as int, i + 14)[11]);
            assert(s@[i + 12] == s@.subrange(i as int, i + 14)[12]);
            assert(s@[i + 13] == s@.subrange(i as int, i + 14)[13]);
        }
        Some(e + 3)
    } else {
        proof {
            reveal_strlit(" }}");
            if comp_token_at(s@, i as int) {
                assert(s@.subrange(e as int, e + 3) =~= " }}"@);
            }
        }
        None
    }
}

/// Some variable token in `s` references the name `n`.
pub open spec fn has_var_named(s: Seq<char>, n: Seq<char>) -> bool {
    exists|i: int| var_token_at(s, i) && var_name_at(s, i) == n
}

/// Some component token in `s` references the name `n`.
pub open spec fn has_comp_named(s: Seq<char>, n: Seq<char>) -> bool {
    exists|i: int| comp_token_at(s, i) && comp_name_at(s, i) == n
}

/// The list holds some string whose characters are `n`.
pub open spec fn list_has_str(l: Seq<String>, n: Seq<char>) -> bool {
    exists|j: int| 0 <= j < l.len() && l[j]@ == n
}

fn vec_has_str(l: &Vec<String>, n: &str) -> (r: bool)
    ensures
        r == list_has_str(l@, n@),
{
    let mut j: usize = 0;
    while j < l.len()
        invariant
            j <= l@.len(),
            forall|k: int| 0 <= k < j ==> l@[k]@ != n@,
        decreases l@.len() - j,
    {
        if crate::text::str_eq(l[j].as_str(), n) {
            return true;
        }
        j = j + 1;
    }
    false
}

/// The names of all variable tokens in `s`, each once, in order of first
/// occurrence.
pub fn scan_variables(s: &str) -> (r: Vec<String>)
    ensures
        forall|j: int| 0 <= j < r@.len() ==> has_var_named(s@, #[trigger] r@[j]@),
        forall|i: int| #[trigger] var_token_at(s@, i) ==> list_has_str(r@, var_name_at(s@, i)),
        forall|j: int, k: int| 0 <= j < k < r@.len() ==> r@[j]@ != r@[k]@,
{
    let n = s.unicode_len();
    let mut r: Vec<String> = Vec::new();
    let mut i: usize = 0;
    while i < n
        invariant
            n == s@.len(),
            i <= n,
            forall|j: int| 0 <= j < r@.len() ==> has_var_named(s@, #[trigger] r@[j]@),
            forall|i2: int|
                0 <= i2 < i && #[trigger] var_token_at(s@, i2) ==> list_has_str(
                    r@,
                    var_name_at(s@, i2),
                ),
            forall|j: int, k: int| 0 <= j < k < r@.len() ==> r@[j]@ != r@[k]@,
        decreases n - i,
    {
        if let Some(e) = var_token_end(s, i) {
            proof {
                lemma_var_token_bounds(s@, i as int);
                lemma_name_end(s@, i + 3);
            }
            let name = s.substring_char(i + 3, e - 3).to_owned();
            proof {
                assert(name@ == var_name_at(s@, i as int));
                assert(has_var_named(s@, name@));
            }
            if !vec_has_str(&r, name.as_str()) {
                let ghost r_old = r@;
                r.push(name);
                proof {
                    assert(forall|j: int| 0 <= j < r_old.len() ==> r@[j]@ == r_old[j]@);
                    assert(r@[r@.len() - 1]@ == var_name_at(s@, i as int));
                    assert(list_has_str(r@, var_name_at(s@, i as int)));
                }
            }
        }
        i = i + 1;
    }
    proof {
        assert(forall|i2: int| #[trigger]
            var_token_at(s@, i2) && i2 >= n ==> i2 + 3 > s@.len());
    }
    r
}

/// The names of all component tokens in `s`, each once, in order of first
/// occurrence.
pub fn scan_components(s: &str) -> (r: Vec<String>)
    ensures
        forall|j: int| 0 <= j < r@.len() ==> has_comp_named(s@, #[trigger] r@[j]@),
        forall|i: int| #[trigger] comp_token_at(s@, i) ==> list_has_str(r@, comp_name_at(s@, i)),
        forall|j: int, k: int| 0 <= j < k < r@.len() ==> r@[j]@ != r@[k]@,
{
    let n = s.unicode_len();
    let mut r: Vec<String> = Vec::new();
    let mut i: usize = 0;
    while i < n
        invariant
            n == s@.len(),
            i <= n,
            forall|j: int| 0 <= j < r@.len() ==> has_comp_named(s@, #[trigger] r@[j]@),
            forall|i2: int|
                0 <= i2 < i && #[trigger] comp_token_at(s@, i2) ==> list_has_str(
                    r@,
                    comp_name_at(s@, i2),
                ),
            forall|j: int, k: int| 0 <= j < k < r@.len() ==> r@[j]@ != r@[k]@,
        decreases n - i,
    {
        if let Some(e) = comp_token_end(s, i) {
            proof {
                lemma_comp_not_var(s@, i as int);
                lemma_name_end(s@, i + 14);
            }
            let name = s.substring_char(i + 14, e - 3).to_owned();
            proof {
                assert(name@ == comp_name_at(s@, i as int));
                assert(has_comp_named(s@, name@));
            }
            if !vec_has_str(&r, name.as_str()) {
                let ghost r_old = r@;
                r.push(name);
                proof {
                    assert(forall|j: int| 0 <= j < r_old.len() ==> r@[j]@ == r_old[j]@);
                    assert(r@[r@.len() - 1]@ == comp_name_at(s@, i as int));
                    assert(list_has_str(r@, comp_name_at(s@, i as int)));
                }
            }
        }
        i = i + 1;
    }
    proof {
        assert(forall|i2: int| #[trigger]
            comp_token_at(s@, i2) && i2 >= n ==> i2 + 14 > s@.len());
    }
    r
}

} // verus!
