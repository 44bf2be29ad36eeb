//! Permission scopes and the delivery-eligibility predicate.
//!
//! A scope is a permission category paired with an access level. Possessing
//! write access to a category implies read access to it; read never implies
//! write. A principal carries either an unrestricted grant (`None`) or a
//! restricted grant (`Some` set of scopes).

use vstd::prelude::*;

verus! {

/// Access level of a permission scope: write access subsumes read access.
#[derive(Clone, Copy, Debug, PartialEq, Eq, Hash, Structural)]
pub enum ReadWrite {
    Read,
    Write,
}

/// A permission scope: a category paired with an access level.
#[derive(Clone, Copy, Debug, PartialEq, Eq, Hash, Structural)]
pub enum Scope {
    Profile(ReadWrite),
    Servers(ReadWrite),
    Messages(ReadWrite),
    Friends(ReadWrite),
}

/// The opposite access level.
pub open spec fn spec_flip(rw: ReadWrite) -> ReadWrite {
    match rw {
        ReadWrite::Read => ReadWrite::Write,
        ReadWrite::Write => ReadWrite::Read,
    }
}

/// The access level carried by a scope.
pub open spec fn spec_access(s: Scope) -> ReadWrite {
    match s {
        Scope::Profile(rw) => rw,
        Scope::Servers(rw) => rw,
        Scope::Messages(rw) => rw,
        Scope::Friends(rw) => rw,
    }
}

/// The scope of the same category with the opposite access level.
pub open spec fn spec_counterpart(s: Scope) -> Scope {
    match s {
        Scope::Profile(rw) => Scope::Profile(spec_flip(rw)),
        Scope::Servers(rw) => Scope::Servers(spec_flip(rw)),
        Scope::Messages(rw) => Scope::Messages(spec_flip(rw)),
        Scope::Friends(rw) => Scope::Friends(spec_flip(rw)),
    }
}

/// Whether a restricted grant covers a required scope: either the scope is
/// granted outright, or the required scope asks for read access and the
/// write-level scope of the same category is granted.
pub open spec fn spec_has_scope(granted: Set<Scope>, required: Scope) -> bool {
    granted.contains(required) || (spec_access(required) == ReadWrite::Read
        && granted.contains(spec_counterpart(required)))
}

/// Whether a grant covers a required scope. An unrestricted grant (`None`)
/// covers everything.
pub open spec fn spec_satisfies(granted: Option<Set<Scope>>, required: Scope) -> bool {
    match granted {
        None => true,
        Some(g) => spec_has_scope(g, required),
    }
}

impl ReadWrite {
    /// The opposite access level.
    pub fn flip(self) -> (r: ReadWrite)
        ensures
            r == spec_flip(self),
    {
        match self {
            ReadWrite::Read => ReadWrite::Write,
            ReadWrite::Write => ReadWrite::Read,
        }
    }
}

impl Scope {
    /// The access level of this scope. A category without a read/write split
    /// would report `None`; every category defined here carries a level.
    pub fn access(&self) -> (r: Option<ReadWrite>)
        ensures
            r == Some(spec_access(*self)),
    {
        match self {
            Scope::Profile(rw) => Some(*rw),
            Scope::Servers(rw) => Some(*rw),
            Scope::Messages(rw) => Some(*rw),
            Scope::Friends(rw) => Some(*rw),
        }
    }

    /// The scope of the same category with the opposite access level.
    pub fn counterpart(self) -> (r: Scope)
        ensures
            r == spec_counterpart(self),
    {
        match self {
            Scope::Profile(rw) => Scope::Profile(rw.flip()),
            Scope::Servers(rw) => Scope::Servers(rw.flip()),
            Scope::Messages(rw) => Scope::Messages(rw.flip()),
            Scope::Friends(rw) => Scope::Friends(rw.flip()),
        }
    }
}

/// A finite set of granted scopes.
pub struct ScopeSet {
    items: Vec<Scope>,
}

impl View for ScopeSet {
    type V = Set<Scope>;

    closed spec fn view(&self) -> Set<Scope> {
        self.items@.to_set()
    }
}

impl ScopeSet {
    /// The empty grant.
    pub fn new() -> (r: ScopeSet)
        ensures
            r@ == Set::<Scope>::empty(),
    {
        let r = ScopeSet { items: Vec::new() };
        proof {
            assert(r@ =~= Set::<Scope>::empty());
        }
        r
    }

    /// Adds a scope to the grant.
    pub fn insert(&mut self, s: Scope)
        ensures
            final(self)@ == old(self)@.insert(s),
    {
        self.items.push(s);
        proof {
            old(self).items@.lemma_push_to_set_commute(s);
        }
    }

    /// Whether the grant contains exactly this scope.
    pub fn contains(&self, s: Scope) -> (r: bool)
        ensures
            r == self@.contains(s),
    {
        let n = self.items.len();
        for i in 0..n
            invariant
                n == self.items.len(),
                forall|k: int| 0 <= k < i ==> self.items@[k] != s,
        {
            if self.items[i] == s {
                return true;
            }
        }
        false
    }
}

/// Whether a restricted grant covers a required scope, counting write access
/// as covering the read-level scope of the same category.
pub fn has_scope(scopes: &ScopeSet, scope: Scope) -> (r: bool)
    ensures
        r == spec_has_scope(scopes@, scope),
{
    if scopes.contains(scope) {
        true
    } else if scope.access() == Some(ReadWrite::Read) {
        scopes.contains(scope.counterpart())
    } else {
        false
    }
}

/// The mathematical grant that an optional scope set stands for.
pub open spec fn spec_granted(granted: Option<ScopeSet>) -> Option<Set<Scope>> {
    match granted {
        None => None,
        Some(g) => Some(g@),
    }
}

/// Whether a grant covers a required scope. `None` is the unrestricted grant
/// of a first-party login and covers everything.
pub fn satisfies(granted: &Option<ScopeSet>, required: Scope) -> (r: bool)
    ensures
        r == spec_satisfies(spec_granted(*granted), required),
{
    match granted {
        None => true,
        Some(g) => has_scope(g, required),
    }
}

/// The scope a registered name stands for: the category name, a dot, and the
/// access level.
pub open spec fn spec_scope_of_name(name: Seq<char>) -> Option<Scope> {
    if name == "profile.read"@ {
        Some(Scope::Profile(ReadWrite::Read))
    } else if name == "profile.write"@ {
        Some(Scope::Profile(ReadWrite::Write))
    } else if name == "servers.read"@ {
        Some(Scope::Servers(ReadWrite::Read))
    } else if name == "servers.write"@ {
        Some(Scope::Servers(ReadWrite::Write))
    } else if name == "messages.read"@ {
        Some(Scope::Messages(ReadWrite::Read))
    } else if name == "messages.write"@ {
        Some(Scope::Messages(ReadWrite::Write))
    } else if name == "friends.read"@ {
        Some(Scope::Friends(ReadWrite::Read))
    } else if name == "friends.write"@ {
        Some(Scope::Friends(ReadWrite::Write))
    } else {
        None
    }
}

/// The position of the first comma, or the length when there is none.
pub open spec fn first_comma(s: Seq<char>) -> nat
    decreases s.len(),
{
    if s.len() == 0 {
        0
    } else if s[0] == ',' {
        0
    } else {
        1 + first_comma(s.drop_first())
    }
}

/// The first comma never lies beyond the end.
pub proof fn lemma_first_comma_le(s: Seq<char>)
    ensures
        first_comma(s) <= s.len(),
    decreases s.len(),
{
    if s.len() > 0 && s[0] != ',' {
        lemma_first_comma_le(s.drop_first());
    }
}

/// A scan that saw no comma before `j`, and a comma at `j` unless `j` is the
/// end, found the first comma.
pub proof fn lemma_first_comma_at(s: Seq<char>, j: int)
    requires
        0 <= j <= s.len(),
        forall|k: int| 0 <= k < j ==> s[k] != ',',
        j < s.len() ==> s[j] == ',',
    ensures
        first_comma(s) == j,
    decreases j,
{
    if j == 0 {
    } else {
        lemma_first_comma_at(s.drop_first(), j - 1);
    }
}

/// The scope set a comma-separated grant string stands for: `None` when some
/// non-empty chunk is not a registered scope name; empty chunks are skipped.
pub open spec fn spec_parse_scopes(s: Seq<char>) -> Option<Set<Scope>>
    decreases s.len(),
    via spec_parse_scopes_decreases
{
    if s.len() == 0 {
        Some(Set::empty())
    } else {
        let i = first_comma(s) as int;
        let chunk = s.subrange(0, i);
        let rest = if i == s.len() {
            Seq::<char>::empty()
        } else {
            s.subrange(i + 1, s.len() as int)
        };
        if chunk.len() == 0 {
            spec_parse_scopes(rest)
        } else {
            match spec_scope_of_name(chunk) {
                None => None,
                Some(sc) => match spec_parse_scopes(rest) {
                    None => None,
                    Some(set) => Some(set.insert(sc)),
                },
            }
        }
    }
}

#[via_fn]
proof fn spec_parse_scopes_decreases(s: Seq<char>) {
    lemma_first_comma_le(s);
}

/// Compares two strings by their character sequences.
fn str_eq(a: &str, b: &str) -> (r: bool)
    ensures
        r == (a@ == b@),
{
    let sa = String::from_str(a);
    let sb = String::from_str(b);
    sa == sb
}

/// Parses one scope name.
pub fn parse_scope(s: &str) -> (r: Option<Scope>)
    ensures
        r == spec_scope_of_name(s@),
{
    if str_eq(s, "profile.read") {
        Some(Scope::Profile(ReadWrite::Read))
    } else if str_eq(s, "profile.write") {
        Some(Scope::Profile(ReadWrite::Write))
    } else if str_eq(s, "servers.read") {
        Some(Scope::Servers(ReadWrite::Read))
    } else if str_eq(s, "servers.write") {
        Some(Scope::Servers(ReadWrite::Write))
    } else if str_eq(s, "messages.read") {
        Some(Scope::Messages(ReadWrite::Read))
    } else if str_eq(s, "messages.write") {
        Some(Scope::Messages(ReadWrite::Write))
    } else if str_eq(s, "friends.read") {
        Some(Scope::Friends(ReadWrite::Read))
    } else if str_eq(s, "friends.write") {
        Some(Scope::Friends(ReadWrite::Write))
    } else {
        None
    }
}

/// How a partly built grant combines with the parse of the remaining input.
spec fn merge_parsed(done: Set<Scope>, rest: Option<Set<Scope>>) -> Option<Set<Scope>> {
    match rest {
        None => None,
        Some(x) => Some(done.union(x)),
    }
}

/// Parses a comma-separated grant string, as token records store it. Empty
/// chunks are skipped; an unknown scope name makes the whole string invalid.
pub fn scopes_from_string(s: &str) -> (r: Option<ScopeSet>)
    ensures
        match r {
            Some(set) => spec_parse_scopes(s@) == Some(set@),
            None => spec_parse_scopes(s@) is None,
        },
{
    let n = s.unicode_len();
    let mut acc = ScopeSet::new();
    let mut p: usize = 0;
    proof {
        assert(s@.subrange(0, n as int) =~= s@);
        assert(merge_parsed(acc@, spec_parse_scopes(s@)) == spec_parse_scopes(s@)) by {
            if spec_parse_scopes(s@) is Some {
                let x = spec_parse_scopes(s@)->Some_0;
                assert(acc@.union(x) =~= x);
            }
        }
    }
    while p < n
        invariant
            p <= n,
            n == s@.len(),
            spec_parse_scopes(s@) == merge_parsed(
                acc@,
                spec_parse_scopes(s@.subrange(p as int, n as int)),
            ),
        decreases n - p,
    {
        let ghost rest = s@.subrange(p as int, n as int);
        let mut i: usize = p;
        loop
            invariant
                p <= i <= n,
                n == s@.len(),
                forall|k: int| p <= k < i ==> s@[k] != ',',
            ensures
                p <= i <= n,
                forall|k: int| p <= k < i ==> s@[k] != ',',
                i < n ==> s@[i as int] == ',',
            decreases n - i,
        {
            if i == n {
                break ;
            }
            if s.get_char(i) == ',' {
                break ;
            }
            i = i + 1;
        }
        proof {
            lemma_first_comma_at(rest, i - p);
        }
        let chunk = s.substring_char(p, i);
        proof {
            assert(chunk@ =~= rest.subrange(0, i - p));
        }
        let ghost rest2 = if i == n {
            Seq::<char>::empty()
        } else {
            s@.subrange(i as int + 1, n as int)
        };
        proof {
            if i < n {
                assert(rest.subrange(i - p + 1, rest.len() as int) =~= rest2);
            }
        }
        if chunk.unicode_len() == 0 {
            // Skip the empty chunk.
        } else {
            match parse_scope(chunk) {
                None => {
                    return None;
                },
                Some(sc) => {
                    let ghost acc_before = acc@;
                    acc.insert(sc);
                    proof {
                        if spec_parse_scopes(rest2) is Some {
                            let x = spec_parse_scopes(rest2)->Some_0;
                            assert(acc_before.union(x.insert(sc)) =~= acc@.union(x));
                        }
                    }
                },
            }
        }
        if i == n {
            p = n;
        } else {
            p = i + 1;
        }
    }
    proof {
        assert(s@.subrange(n as int, n as int) =~= Seq::<char>::empty());
        assert(acc@.union(Set::<Scope>::empty()) =~= acc@);
    }
    Some(acc)
}

/// For every category, the write-level scope alone covers the read-level
/// scope of that category, the read-level scope alone never covers the
/// write-level one, and the unrestricted grant covers everything.
pub proof fn law_scope_satisfaction(s: Scope)
    ensures
        spec_satisfies(None, s),
        spec_access(s) == ReadWrite::Write ==> spec_satisfies(
            Some(set![s]),
            spec_counterpart(s),
        ),
        spec_access(s) == ReadWrite::Read ==> !spec_satisfies(
            Some(set![s]),
            spec_counterpart(s),
        ),
{
    assert(s != spec_counterpart(s));
}

} // verus!
