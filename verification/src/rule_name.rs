use crate::strutil::str_eq;
use vstd::prelude::*;

verus! {

/// Index of the first '/' in a key, or the key's length when there is none.
pub open spec fn spec_find_slash(s: Seq<char>) -> int
    decreases s.len(),
{
    if s.len() == 0 {
        0
    } else if s[0] == '/' {
        0
    } else {
        1 + spec_find_slash(s.drop_first())
    }
}

pub proof fn lemma_find_slash_at(s: Seq<char>, i: int)
    requires
        0 <= i <= s.len(),
        forall|j: int| 0 <= j < i ==> s[j] != '/',
        i < s.len() ==> s[i] == '/',
    ensures
        spec_find_slash(s) == i,
    decreases i,
{
    if i == 0 {
        if s.len() > 0 {
            assert(s[0] == '/');
        }
    } else {
        assert(s[0] != '/');
        let t = s.drop_first();
        assert forall|j: int| 0 <= j < i - 1 implies t[j] != '/' by {
            assert(t[j] == s[j + 1]);
        }
        if i - 1 < t.len() {
            assert(t[i - 1] == s[i]);
        }
        lemma_find_slash_at(t, i - 1);
    }
}

/// A scope with its leading '@'-style namespace markers removed.
pub open spec fn spec_strip_at(s: Seq<char>) -> Seq<char>
    decreases s.len(),
{
    if s.len() > 0 && s[0] == '@' {
        spec_strip_at(s.drop_first())
    } else {
        s
    }
}

pub proof fn lemma_strip_at_is(s: Seq<char>, k: int)
    requires
        0 <= k <= s.len(),
        forall|j: int| 0 <= j < k ==> s[j] == '@',
        k < s.len() ==> s[k] != '@',
    ensures
        spec_strip_at(s) == s.skip(k),
    decreases k,
{
    if k == 0 {
        assert(s.skip(0) =~= s);
    } else {
        assert(s[0] == '@');
        let t = s.drop_first();
        assert forall|j: int| 0 <= j < k - 1 implies t[j] == '@' by {
            assert(t[j] == s[j + 1]);
        }
        if k - 1 < t.len() {
            assert(t[k - 1] == s[k]);
        }
        lemma_strip_at_is(t, k - 1);
        assert(t.skip(k - 1) =~= s.skip(k));
    }
}

/// The two known scope aliases: the TypeScript-flavored scope maps to the
/// canonical "typescript" plugin id, and the hyphenated accessibility scope
/// to its underscore-normalized form.
pub open spec fn spec_alias(scope: Seq<char>) -> Seq<char> {
    if scope == "typescript-eslint"@ {
        "typescript"@
    } else if scope == "jsx-a11y"@ {
        "jsx_a11y"@
    } else {
        scope
    }
}

/// How a raw rule key resolves: a key with a separator splits into an
/// alias-mapped scope (leading '@' markers stripped) and the rest; a key
/// without one belongs to the core "eslint" plugin.
pub open spec fn spec_parse_rule_name(key: Seq<char>) -> (Seq<char>, Seq<char>) {
    let i = spec_find_slash(key);
    if i < key.len() {
        (spec_alias(spec_strip_at(key.take(i))), key.skip(i + 1))
    } else {
        ("eslint"@, key)
    }
}

/// Splits a raw rule key into its normalized plugin name and rule name.
/// Resolution is total: any string is accepted.
pub fn parse_rule_name(name: &str) -> (r: (String, String))
    ensures
        (r.0@, r.1@) == spec_parse_rule_name(name@),
{
    let n = name.unicode_len();
    let mut i: usize = 0;
    while i < n && name.get_char(i) != '/'
        invariant
            n == name@.len(),
            0 <= i <= n,
            forall|j: int| 0 <= j < i ==> name@[j] != '/',
        decreases n - i,
    {
        i += 1;
    }
    proof {
        lemma_find_slash_at(name@, i as int);
    }
    if i < n {
        let cat = name.substring_char(0, i);
        let rest = name.substring_char(i + 1, n);
        let m = cat.unicode_len();
        let mut k: usize = 0;
        while k < m && cat.get_char(k) == '@'
            invariant
                m == cat@.len(),
                0 <= k <= m,
                forall|j: int| 0 <= j < k ==> cat@[j] == '@',
            decreases m - k,
        {
            k += 1;
        }
        proof {
            lemma_strip_at_is(cat@, k as int);
            assert(cat@ =~= name@.take(i as int));
        }
        let stripped = cat.substring_char(k, m);
        let plugin = if str_eq(stripped, "typescript-eslint") {
            String::from_str("typescript")
        } else if str_eq(stripped, "jsx-a11y") {
            String::from_str("jsx_a11y")
        } else {
            String::from_str(stripped)
        };
        (plugin, String::from_str(rest))
    } else {
        (String::from_str("eslint"), String::from_str(name))
    }
}

/// A key without a separator resolves to the core plugin id, and the rule
/// name is the key verbatim.
pub proof fn lemma_unscoped_rule_key(key: Seq<char>)
    requires
        forall|j: int| 0 <= j < key.len() ==> key[j] != '/',
    ensures
        spec_parse_rule_name(key) == ("eslint"@, key),
{
    lemma_find_slash_at(key, key.len() as int);
}

/// A key "scope/name" whose scope holds no separator resolves to the
/// alias-mapped scope, '@' markers stripped, and the rule name is the part
/// after the separator, verbatim.
pub proof fn lemma_scoped_rule_key(scope: Seq<char>, name: Seq<char>)
    requires
        forall|j: int| 0 <= j < scope.len() ==> scope[j] != '/',
    ensures
        spec_parse_rule_name(scope + seq!['/'] + name) == (
            spec_alias(spec_strip_at(scope)),
            name,
        ),
{
    let key = scope + seq!['/'] + name;
    assert forall|j: int| 0 <= j < scope.len() implies key[j] != '/' by {
        assert(key[j] == scope[j]);
    }
    assert(key[scope.len() as int] == '/');
    lemma_find_slash_at(key, scope.len() as int);
    assert(key.take(scope.len() as int) =~= scope);
    assert(key.skip(scope.len() as int + 1) =~= name);
}

} // verus!
