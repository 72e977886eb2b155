//! The scope chain: a singly linked chain of scopes, innermost first, each
//! mapping variable names to values. `define` writes the innermost scope,
//! `get` and `assign` search outward and stop at the nearest scope that
//! knows the name; a name no scope knows is a runtime error.
//!
//! The model of a scope is a sequence of (name, value) pairs in which the
//! latest entry for a name wins, and the model of the chain is the sequence
//! of scope models, innermost first.

use vstd::prelude::*;
use vstd::string::StringExecFns;

use crate::error::{is_runtime_error, Error};
use crate::value::{SpecValue, Value};

verus! {

/// The model of one scope.
pub type SpecFrame = Seq<(Seq<char>, SpecValue)>;

/// The model of a chain of scopes, innermost first.
pub type SpecEnv = Seq<SpecFrame>;

/// The value bound to a name in one scope: the latest entry wins.
pub open spec fn frame_get(f: SpecFrame, name: Seq<char>) -> Option<SpecValue>
    decreases f.len(),
{
    if f.len() == 0 {
        None
    } else if f.last().0 == name {
        Some(f.last().1)
    } else {
        frame_get(f.drop_last(), name)
    }
}

/// Whether one scope knows a name.
pub open spec fn frame_has(f: SpecFrame, name: Seq<char>) -> bool {
    frame_get(f, name) is Some
}

/// The value bound to a name, searching scopes innermost to outermost.
pub open spec fn env_get(fs: SpecEnv, name: Seq<char>) -> Option<SpecValue>
    decreases fs.len(),
{
    if fs.len() == 0 {
        None
    } else {
        match frame_get(fs[0], name) {
            Some(v) => Some(v),
            None => env_get(fs.drop_first(), name),
        }
    }
}

/// Whether any scope of the chain knows a name.
pub open spec fn env_has(fs: SpecEnv, name: Seq<char>) -> bool {
    env_get(fs, name) is Some
}

/// Defining a name writes the innermost scope, shadowing any outer binding
/// (an empty chain — which no interpreter state exhibits — is left as it is).
pub open spec fn env_define(fs: SpecEnv, name: Seq<char>, v: SpecValue) -> SpecEnv {
    if fs.len() == 0 {
        fs
    } else {
        fs.update(0, fs[0].push((name, v)))
    }
}

/// Assigning writes the nearest scope that already knows the name; `None`
/// when no scope knows it.
pub open spec fn env_assign(fs: SpecEnv, name: Seq<char>, v: SpecValue) -> Option<SpecEnv>
    decreases fs.len(),
{
    if fs.len() == 0 {
        None
    } else if frame_has(fs[0], name) {
        Some(fs.update(0, fs[0].push((name, v))))
    } else {
        match env_assign(fs.drop_first(), name, v) {
            Some(rest) => Some(seq![fs[0]] + rest),
            None => None,
        }
    }
}

/// Appending an entry binds its name and leaves every other name alone.
pub proof fn lemma_frame_get_push(f: SpecFrame, p: (Seq<char>, SpecValue), name: Seq<char>)
    ensures
        frame_get(f.push(p), name) == if p.0 == name {
            Some(p.1)
        } else {
            frame_get(f, name)
        },
{
    assert(f.push(p).drop_last() =~= f);
}

/// Assignment succeeds exactly on the names some scope knows; a successful
/// assignment binds the name to the new value, keeps every scope in place,
/// and changes no scope's set of known names.
pub proof fn lemma_env_assign(fs: SpecEnv, name: Seq<char>, v: SpecValue)
    ensures
        env_assign(fs, name, v) is Some <==> env_has(fs, name),
        env_assign(fs, name, v) matches Some(fs2) ==> {
            &&& env_get(fs2, name) == Some(v)
            &&& fs2.len() == fs.len()
            &&& forall|j: int, n: Seq<char>|
                0 <= j < fs.len() ==> (#[trigger] frame_has(fs2[j], n) <==> frame_has(fs[j], n))
        },
    decreases fs.len(),
{
    if fs.len() == 0 {
    } else if frame_has(fs[0], name) {
        let fs2 = fs.update(0, fs[0].push((name, v)));
        lemma_frame_get_push(fs[0], (name, v), name);
        assert forall|j: int, n: Seq<char>| 0 <= j < fs.len() implies (#[trigger] frame_has(
            fs2[j],
            n,
        ) <==> frame_has(fs[j], n)) by {
            if j == 0 {
                lemma_frame_get_push(fs[0], (name, v), n);
            }
        }
    } else {
        lemma_env_assign(fs.drop_first(), name, v);
        if env_assign(fs.drop_first(), name, v) is Some {
            let rest = env_assign(fs.drop_first(), name, v)->Some_0;
            let fs2 = seq![fs[0]] + rest;
            assert(frame_get(fs2[0], name) == frame_get(fs[0], name));
            assert(fs2.drop_first() =~= rest);
            assert forall|j: int, n: Seq<char>| 0 <= j < fs.len() implies (#[trigger] frame_has(
                fs2[j],
                n,
            ) <==> frame_has(fs[j], n)) by {
                if j > 0 {
                    assert(fs2[j] == rest[j - 1]);
                    assert(fs[j] == fs.drop_first()[j - 1]);
                }
            }
        }
    }
}

/// One link of the scope chain.
#[derive(Debug)]
pub struct Environment {
    pub enclosing: Option<Box<Environment>>,
    pub values: Vec<(String, Value)>,
}

impl Environment {
    /// The model of this link's own scope.
    pub open spec fn frame(&self) -> SpecFrame {
        Seq::new(self.values@.len(), |i: int| (self.values@[i].0@, self.values@[i].1@))
    }

    /// The model of the whole chain from this link outward.
    pub open spec fn frames(&self) -> SpecEnv
        decreases *self,
    {
        match self.enclosing {
            None => seq![self.frame()],
            Some(enclosing) => seq![self.frame()] + enclosing.frames(),
        }
    }

    pub fn new(enclosing: Option<Box<Environment>>) -> (e: Environment)
        ensures
            e.enclosing == enclosing,
            e.frame() =~= Seq::<(Seq<char>, SpecValue)>::empty(),
    {
        Environment { enclosing, values: Vec::new() }
    }

    /// Inserts or overwrites a binding in exactly this link's scope.
    pub fn define(&mut self, name: String, value: Value)
        ensures
            final(self).frames() == env_define(old(self).frames(), name@, value@),
    {
        let ghost old_frames = self.frames();
        self.values.push((name, value));
        proof {
            assert(self.frame() =~= old_frames[0].push((name@, value@)));
            assert(self.frames() =~= env_define(old_frames, name@, value@));
        }
    }

    /// Whether this link's own scope knows the name.
    fn has_name(&self, name: &String) -> (r: bool)
        ensures
            r == frame_has(self.frame(), name@),
    {
        let n: usize = self.values.len();
        let mut i: usize = n;
        proof {
            assert(self.frame().take(n as int) =~= self.frame());
        }
        while i > 0
            invariant
                i <= n,
                n == self.values.len(),
                frame_get(self.frame(), name@) == frame_get(
                    self.frame().take(i as int),
                    name@,
                ),
            decreases i,
        {
            i = i - 1;
            if self.values[i].0.eq(name) {
                proof {
                    assert(self.frame().take(i + 1 as int).last() == (
                        self.values@[i as int].0@,
                        self.values@[i as int].1@,
                    ));
                }
                return true;
            }
            proof {
                assert(self.frame().take(i + 1 as int).drop_last() =~= self.frame().take(
                    i as int,
                ));
            }
        }
        proof {
            assert(self.frame().take(0) =~= Seq::<(Seq<char>, SpecValue)>::empty());
        }
        false
    }

    /// The value bound to the name in the nearest scope that knows it.
    pub fn get(&self, name: &String) -> (r: Result<&Value, Error>)
        ensures
            match env_get(self.frames(), name@) {
                Some(v) => r is Ok && r->Ok_0@ == v,
                None => r is Err && is_runtime_error(r->Err_0, "undefined variable "@ + name@),
            },
        decreases *self,
    {
        let n: usize = self.values.len();
        let mut i: usize = n;
        proof {
            assert(self.frame().take(n as int) =~= self.frame());
        }
        while i > 0
            invariant
                i <= n,
                n == self.values.len(),
                frame_get(self.frame(), name@) == frame_get(
                    self.frame().take(i as int),
                    name@,
                ),
            decreases i,
        {
            i = i - 1;
            if self.values[i].0.eq(name) {
                proof {
                    assert(self.frame().take(i + 1 as int).last() == (
                        self.values@[i as int].0@,
                        self.values@[i as int].1@,
                    ));
                }
                return Ok(&self.values[i].1);
            }
            proof {
                assert(self.frame().take(i + 1 as int).drop_last() =~= self.frame().take(
                    i as int,
                ));
            }
        }
        proof {
            assert(self.frame().take(0) =~= Seq::<(Seq<char>, SpecValue)>::empty());
        }
        proof {
            assert(frame_get(self.frame(), name@) is None);
        }
        match &self.enclosing {
            Some(enclosing) => {
                proof {
                    assert(self.frames()[0] == self.frame());
                    assert(self.frames().drop_first() =~= enclosing.frames());
                    assert(env_get(self.frames(), name@) == env_get(enclosing.frames(), name@));
                }
                enclosing.get(name)
            },
            None => {
                proof {
                    assert(self.frames()[0] == self.frame());
                    assert(self.frames().drop_first() =~= Seq::<SpecFrame>::empty());
                    assert(env_get(Seq::<SpecFrame>::empty(), name@) is None);
                    assert(env_get(self.frames(), name@) is None);
                }
                let message = String::from_str("undefined variable ").concat(name.as_str());
                Err(Error::runtime(message))
            },
        }
    }

    /// Writes the value into the nearest scope that already defines the
    /// name; fails without changing anything when no scope defines it.
    pub fn assign(&mut self, name: String, value: Value) -> (r: Result<(), Error>)
        ensures
            match env_assign(old(self).frames(), name@, value@) {
                Some(fs) => r is Ok && final(self).frames() == fs,
                None => r is Err && is_runtime_error(
                    r->Err_0,
                    "undefined variable "@ + name@,
                ) && final(self).frames() == old(self).frames(),
            },
        decreases *old(self),
    {
        let ghost old_frames = self.frames();
        proof {
            assert(old_frames[0] == self.frame());
        }
        if self.has_name(&name) {
            let ghost name_view = name@;
            self.values.push((name, value));
            proof {
                let fs = env_assign(old_frames, name_view, value@);
                assert(fs == Some(old_frames.update(0, old_frames[0].push((name_view, value@)))));
                assert(self.frame() =~= old_frames[0].push((name_view, value@)));
                assert(self.frames() =~= old_frames.update(
                    0,
                    old_frames[0].push((name_view, value@)),
                ));
                assert(self.frames() == fs->Some_0);
            }
            Ok(())
        } else {
            match &mut self.enclosing {
                Some(enclosing) => {
                    proof {
                        assert(old_frames.drop_first() =~= enclosing.frames());
                    }
                    let r = enclosing.assign(name, value);
                    proof {
                        if env_assign(old_frames, name@, value@) is Some {
                            assert(env_assign(old_frames.drop_first(), name@, value@) is Some);
                            assert(env_assign(old_frames, name@, value@)->Some_0 == seq![
                                old_frames[0],
                            ] + env_assign(old_frames.drop_first(), name@, value@)->Some_0);
                            assert(self.frames() =~= env_assign(old_frames, name@, value@)->Some_0);
                        } else {
                            assert(self.frames() =~= old_frames);
                        }
                    }
                    r
                },
                None => {
                    proof {
                        assert(old_frames.drop_first() =~= Seq::<SpecFrame>::empty());
                        assert(env_assign(Seq::<SpecFrame>::empty(), name@, value@) is None);
                        assert(env_assign(old_frames, name@, value@) is None);
                    }
                    let message = String::from_str("undefined variable ").concat(name.as_str());
                    Err(Error::runtime(message))
                },
            }
        }
    }

    /// Hands the chain back to the enclosing link, discarding this scope.
    pub fn enclosing(self) -> (r: Option<Box<Environment>>)
        ensures
            r == self.enclosing,
    {
        self.enclosing
    }
}

} // verus!
