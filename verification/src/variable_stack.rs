//! The evaluator's scoped symbol table: a stack of scopes mapping names
//! to shared value cells. Lookup walks scopes from the innermost outward;
//! within a scope a later binding shadows an earlier one.

use vstd::prelude::*;

use crate::data_obj::RefDataObj;
use crate::text::nat_text;
use crate::text::str_eq;
use crate::text::usize_to_string;

verus! {

broadcast use vstd::std_specs::vec::group_vec_axioms, vstd::seq::group_seq_axioms;

/// One scope: names bound to cell handles, later entries shadowing
/// earlier ones.
pub type FrameV = Seq<(Seq<char>, int)>;

/// A stack of scopes, innermost last.
pub type StackV = Seq<FrameV>;

/// The handle bound to a name in one scope: the latest binding wins.
pub open spec fn lookup_frame(frame: FrameV, name: Seq<char>) -> Option<int>
    decreases frame,
{
    if frame.len() == 0 {
        None
    } else if frame.last().0 == name {
        Some(frame.last().1)
    } else {
        lookup_frame(frame.drop_last(), name)
    }
}

/// The handle bound to a name: the innermost scope that binds it wins.
pub open spec fn lookup_stack(stack: StackV, name: Seq<char>) -> Option<int>
    decreases stack,
{
    if stack.len() == 0 {
        None
    } else {
        match lookup_frame(stack.last(), name) {
            Some(h) => Some(h),
            None => lookup_stack(stack.drop_last(), name),
        }
    }
}

/// The view of one stored scope.
pub open spec fn frame_view(frame: Seq<(String, RefDataObj)>) -> FrameV {
    Seq::new(frame.len(), |j: int| (frame[j].0@, frame[j].1.idx as int))
}

/// Every handle a stack holds refers to one of the first `n` cells.
pub open spec fn stack_ok(stack: StackV, n: int) -> bool {
    forall|i: int, j: int|
        0 <= i < stack.len() && 0 <= j < stack[i].len() ==> 0 <= (#[trigger] stack[i][j]).1 < n
}

/// A scoped mapping of names to shared value cells, used while a module
/// or a function body runs.
pub struct VariableStack {
    stack: Vec<Vec<(String, RefDataObj)>>,
}

impl View for VariableStack {
    type V = StackV;

    closed spec fn view(&self) -> StackV {
        Seq::new(self.stack@.len(), |i: int| frame_view(self.stack@[i]@))
    }
}

fn find_in_frame(frame: &Vec<(String, RefDataObj)>, name: &str) -> (r: Option<RefDataObj>)
    ensures
        match lookup_frame(frame_view(frame@), name@) {
            Some(h) => r matches Some(rh) && rh.idx == h,
            None => r is None,
        },
{
    let ghost full = frame_view(frame@);
    proof {
        assert(full.take(frame@.len() as int) =~= full);
    }
    let mut j = frame.len();
    while j > 0
        invariant
            j <= frame@.len(),
            full == frame_view(frame@),
            lookup_frame(full, name@) == lookup_frame(full.take(j as int), name@),
        decreases j,
    {
        j -= 1;
        if str_eq(frame[j].0.as_str(), name) {
            proof {
                assert(full.take(j + 1 as int).last() == full[j as int]);
            }
            return Some(frame[j].1);
        }
        proof {
            assert(full.take(j + 1 as int).last() == full[j as int]);
            assert(full.take(j + 1 as int).drop_last() =~= full.take(j as int));
        }
    }
    proof {
        assert(full.take(0).len() == 0);
    }
    None
}

impl VariableStack {
    /// A stack with a single empty scope.
    pub fn new() -> (r: Self)
        ensures
            r@.len() == 1,
            r@[0] == Seq::<(Seq<char>, int)>::empty(),
    {
        let r = VariableStack { stack: vec![Vec::new()] };
        proof {
            assert(r@[0] =~= Seq::<(Seq<char>, int)>::empty());
        }
        r
    }

    /// Binds a name to a cell in the innermost scope, shadowing any
    /// earlier binding of that name there.
    pub fn add_variable(&mut self, name: String, v: RefDataObj)
        requires
            old(self)@.len() > 0,
        ensures
            final (self)@ =~= old(self)@.update(
                old(self)@.len() - 1,
                old(self)@.last().push((name@, v.idx as int)),
            ),
    {
        let mut frame = self.stack.pop().unwrap();
        frame.push((name, v));
        self.stack.push(frame);
        proof {
            assert(frame_view(frame@) =~= old(self)@.last().push((name@, v.idx as int)));
        }
    }

    /// The innermost cell bound to the name; the caller must know one
    /// exists (the checker makes sure of it for checked programs).
    pub fn find_variable(&self, name: &str) -> (r: RefDataObj)
        requires
            lookup_stack(self@, name@) is Some,
        ensures
            Some(r.idx as int) == lookup_stack(self@, name@),
    {
        self.try_find_variable(name).unwrap()
    }

    /// The innermost cell bound to the name, if any scope binds it.
    pub fn try_find_variable(&self, name: &str) -> (r: Option<RefDataObj>)
        ensures
            match lookup_stack(self@, name@) {
                Some(h) => r matches Some(rh) && rh.idx == h,
                None => r is None,
            },
    {
        let ghost env = self@;
        proof {
            assert(env.take(self.stack@.len() as int) =~= env);
        }
        let mut i = self.stack.len();
        while i > 0
            invariant
                i <= self.stack@.len(),
                env == self@,
                env.len() == self.stack@.len(),
                lookup_stack(env, name@) == lookup_stack(env.take(i as int), name@),
            decreases i,
        {
            i -= 1;
            let found = find_in_frame(&self.stack[i], name);
            proof {
                assert(env.take(i + 1 as int).last() == env[i as int]);
                assert(env.take(i + 1 as int).drop_last() =~= env.take(i as int));
            }
            if let Some(h) = found {
                return Some(h);
            }
        }
        proof {
            assert(env.take(0).len() == 0);
        }
        None
    }

    /// Opens a fresh empty scope.
    pub fn add_layer(&mut self)
        ensures
            final (self)@ =~= old(self)@.push(Seq::empty()),
    {
        self.stack.push(Vec::new());
        proof {
            assert(frame_view(Seq::<(String, RefDataObj)>::empty()) =~= Seq::<
                (Seq<char>, int),
            >::empty());
        }
    }

    /// Closes the innermost scope; the stack is never left empty.
    pub fn pop_layer(&mut self)
        ensures
            old(self)@.len() > 1 ==> final (self)@ =~= old(self)@.drop_last(),
            old(self)@.len() <= 1 ==> final (self)@.len() == 1 && final (self)@[0] == Seq::<
                (Seq<char>, int),
            >::empty(),
    {
        let _ = self.stack.pop();
        if self.stack.len() == 0 {
            self.add_layer();
        }
    }

    /// Takes the bindings of a one-scope stack into this stack's outermost
    /// scope; a stack of any other depth is refused.
    pub fn extend(&mut self, other: VariableStack) -> (r: Result<(), String>)
        requires
            old(self)@.len() > 0,
        ensures
            other@.len() == 1 ==> r is Ok && final (self)@ =~= old(self)@.update(
                0,
                old(self)@[0].add(other@[0]),
            ),
            other@.len() != 1 ==> ({
                &&& r matches Err(m) && m@ == "VariableStack should have only 1 layer. Found: "@.add(
                    nat_text(other@.len() as int),
                )
                &&& final (self)@ == old(self)@
            }),
    {
        if other.stack.len() != 1 {
            return Err(
                "VariableStack should have only 1 layer. Found: ".to_owned().concat(
                    usize_to_string(other.stack.len()).as_str(),
                ),
            );
        }
        let mut other_mut = other;
        let from = other_mut.stack.pop().unwrap();
        let ghost from_v = frame_view(from@);
        let mut first = self.stack.remove(0);
        let ghost first_v0 = frame_view(first@);
        let mut k: usize = 0;
        while k < from.len()
            invariant
                k <= from@.len(),
                from_v == frame_view(from@),
                first_v0 == old(self)@[0],
                frame_view(first@) =~= first_v0.add(from_v.take(k as int)),
            decreases from@.len() - k,
        {
            let (name, h) = &from[k];
            first.push((name.clone(), *h));
            proof {
                assert(first_v0.add(from_v.take(k + 1 as int)) =~= first_v0.add(
                    from_v.take(k as int),
                ).push(from_v[k as int]));
                assert(frame_view(first@) =~= first_v0.add(from_v.take(k as int)).push(
                    from_v[k as int],
                ));
            }
            k += 1;
        }
        self.stack.insert(0, first);
        proof {
            assert(from_v.take(from@.len() as int) =~= from_v);
            assert(final (self)@ =~= old(self)@.update(0, old(self)@[0].add(from_v)));
        }
        Ok(())
    }
}

} // verus!
