use vstd::prelude::*;
use crate::relocatable::{MaybeRelocatable, ValueModel};

verus! {

/// The binding of `k` in a scope held as a list of assignments: the latest
/// assignment to `k` wins.
pub open spec fn binding(s: Seq<(String, MaybeRelocatable)>, k: Seq<char>) -> Option<ValueModel>
    decreases s.len(),
{
    if s.len() == 0 {
        None
    } else if s.last().0@ == k {
        Some(s.last().1@)
    } else {
        binding(s.drop_last(), k)
    }
}

/// A scope seen as a map from variable name to value.
pub open spec fn scope_view(s: Seq<(String, MaybeRelocatable)>) -> Map<Seq<char>, ValueModel> {
    Map::new(|k: Seq<char>| binding(s, k) is Some, |k: Seq<char>| binding(s, k)->0)
}

/// The scopes after a new empty one is entered.
pub open spec fn entered(s: Seq<Map<Seq<char>, ValueModel>>) -> Seq<Map<Seq<char>, ValueModel>> {
    s.push(Map::empty())
}

/// The scopes after `k` is set to `v` in the innermost one.
pub open spec fn assigned(s: Seq<Map<Seq<char>, ValueModel>>, k: Seq<char>, v: ValueModel) -> Seq<Map<Seq<char>, ValueModel>> {
    s.update(s.len() - 1, s.last().insert(k, v))
}

/// The scopes after the innermost one is left.
pub open spec fn exited(s: Seq<Map<Seq<char>, ValueModel>>) -> Seq<Map<Seq<char>, ValueModel>> {
    s.drop_last()
}

/// Whether `k` is visible: bound in the innermost scope.
pub open spec fn visible(s: Seq<Map<Seq<char>, ValueModel>>, k: Seq<char>) -> bool {
    s.last().dom().contains(k)
}

/// A variable set in an entered scope is gone once that scope is left, and
/// is not seen by a scope entered after that; what was visible before is
/// visible again.
pub proof fn lemma_scope_isolation(s: Seq<Map<Seq<char>, ValueModel>>, k: Seq<char>, v: ValueModel)
    requires
        s.len() >= 1,
    ensures
        exited(assigned(entered(s), k, v)) == s,
        visible(exited(assigned(entered(s), k, v)), k) == visible(s, k),
        !visible(entered(exited(assigned(entered(s), k, v))), k),
{
    assert(exited(assigned(entered(s), k, v)) =~= s);
}

#[derive(Clone, Copy, Debug, PartialEq, Eq, Structural)]
pub enum ExecScopeError {
    /// The outermost scope cannot be left.
    ExitMainScopeError,
}

/// A stack of variable scopes; only the innermost one is read and written.
pub struct ExecutionScopes {
    pub data: Vec<Vec<(String, MaybeRelocatable)>>,
}

impl View for ExecutionScopes {
    type V = Seq<Map<Seq<char>, ValueModel>>;

    open spec fn view(&self) -> Seq<Map<Seq<char>, ValueModel>> {
        self.data@.map_values(|s: Vec<(String, MaybeRelocatable)>| scope_view(s@))
    }
}

impl ExecutionScopes {
    /// One empty scope, the main one.
    pub fn new() -> (r: ExecutionScopes)
        ensures
            r@ == seq![Map::<Seq<char>, ValueModel>::empty()],
    {
        let r = ExecutionScopes { data: vec![Vec::new()] };
        proof {
            assert(scope_view(Seq::<(String, MaybeRelocatable)>::empty()) =~= Map::empty());
            assert(r@ =~= seq![Map::<Seq<char>, ValueModel>::empty()]);
        }
        r
    }

    /// Enters a new, empty scope.
    pub fn enter_scope(&mut self)
        ensures
            final(self)@ == entered(old(self)@),
    {
        self.data.push(Vec::new());
        proof {
            assert(scope_view(Seq::<(String, MaybeRelocatable)>::empty()) =~= Map::empty());
            assert(self@ =~= entered(old(self)@));
        }
    }

    /// Leaves the innermost scope, discarding its variables. The main scope
    /// cannot be left.
    pub fn exit_scope(&mut self) -> (r: Result<(), ExecScopeError>)
        ensures
            old(self)@.len() <= 1 ==> r == Err::<(), ExecScopeError>(ExecScopeError::ExitMainScopeError)
                && final(self)@ == old(self)@,
            old(self)@.len() > 1 ==> r is Ok && final(self)@ == exited(old(self)@),
    {
        if self.data.len() <= 1 {
            return Err(ExecScopeError::ExitMainScopeError);
        }
        self.data.pop();
        proof {
            assert(self@ =~= exited(old(self)@));
        }
        Ok(())
    }

    /// Sets `name` to `value` in the innermost scope.
    pub fn assign_or_update_variable(&mut self, name: &String, value: &MaybeRelocatable)
        requires
            old(self)@.len() >= 1,
        ensures
            final(self)@ == assigned(old(self)@, name@, value@),
    {
        let last = self.data.len() - 1;
        let ghost s0 = self.data@[last as int]@;
        let scope = &mut self.data[last];
        scope.push((name.clone(), value.duplicate()));
        proof {
            let s1 = self.data@[last as int]@;
            assert(s1.drop_last() =~= s0);
            assert(scope_view(s1) =~= scope_view(s0).insert(name@, value@));
            assert(self@ =~= assigned(old(self)@, name@, value@));
        }
    }

    /// The value of `name` in the innermost scope, if it is set there.
    pub fn get(&self, name: &String) -> (r: Option<&MaybeRelocatable>)
        requires
            self@.len() >= 1,
        ensures
            visible(self@, name@) == (r is Some),
            r matches Some(v) ==> self@.last()[name@] == v@,
    {
        let scope = &self.data[self.data.len() - 1];
        let ghost s = scope@;
        assert(self@.last() == scope_view(s));
        let mut j: usize = scope.len();
        assert(s.take(j as int) =~= s);
        while j > 0
            invariant
                j <= s.len(),
                scope@ == s,
                self@.len() >= 1,
                self@.last() == scope_view(s),
                binding(s, name@) == binding(s.take(j as int), name@),
            decreases j,
        {
            let ghost t = s.take(j as int);
            assert(t.drop_last() =~= s.take(j - 1));
            assert(t.last() == s[j - 1]);
            if scope[j - 1].0 == *name {
                assert(binding(s, name@) == Some(s[j - 1].1@));
                assert(scope_view(s).dom().contains(name@));
                return Some(&scope[j - 1].1);
            }
            j = j - 1;
        }
        assert(s.take(0) =~= Seq::<(String, MaybeRelocatable)>::empty());
        assert(!scope_view(s).dom().contains(name@));
        None
    }
}

} // verus!
