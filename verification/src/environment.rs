//! The environment: a stack of scope frames, the table of user-defined
//! functions, and the console.

use vstd::prelude::*;
use vstd::hash_map::StringHashMap;
use crate::ast::{clone_names, names_view, Ast, AstV};
use crate::error::{Console, EventV};
use crate::value::{Value, ValueV};

verus! {

/// The mathematical content of an [`Environment`].
pub struct EnvV {
    /// The scope frames; the first is the global frame, the last the top.
    pub frames: Seq<Map<Seq<char>, ValueV>>,
    /// The functions by name: parameter names and body.
    pub functions: Map<Seq<char>, (Seq<Seq<char>>, AstV)>,
    /// What has been printed and reported.
    pub console: Seq<EventV>,
}

impl EnvV {
    /// An environment has at least the global frame.
    pub open spec fn wf(self) -> bool {
        self.frames.len() >= 1
    }

    /// The environment at the start: one empty frame, no function, nothing
    /// printed.
    pub open spec fn initial() -> EnvV {
        EnvV {
            frames: seq![Map::<Seq<char>, ValueV>::empty()],
            functions: Map::<Seq<char>, (Seq<Seq<char>>, AstV)>::empty(),
            console: Seq::<EventV>::empty(),
        }
    }

    /// The top frame.
    pub open spec fn top(self) -> Map<Seq<char>, ValueV> {
        self.frames.last()
    }

    /// With a fresh frame on top.
    pub open spec fn push_env(self) -> EnvV {
        EnvV { frames: self.frames.push(Map::<Seq<char>, ValueV>::empty()), ..self }
    }

    /// Without the top frame; the global frame stays.
    pub open spec fn pop_env(self) -> EnvV {
        if self.frames.len() > 1 {
            EnvV { frames: self.frames.drop_last(), ..self }
        } else {
            self
        }
    }

    /// With `name` bound in the top frame.
    pub open spec fn force_push(self, name: Seq<char>, val: ValueV) -> EnvV {
        EnvV {
            frames: self.frames.update(self.frames.len() - 1, self.top().insert(name, val)),
            ..self
        }
    }

    /// With `name` assigned: in the global frame where it is bound there, else
    /// in the top frame.
    pub open spec fn push_val(self, name: Seq<char>, val: ValueV) -> EnvV {
        if self.frames[0].contains_key(name) {
            EnvV { frames: self.frames.update(0, self.frames[0].insert(name, val)), ..self }
        } else {
            self.force_push(name, val)
        }
    }

    /// With the function `name` defined, in place of an earlier one.
    pub open spec fn push_function(self, name: Seq<char>, args: Seq<Seq<char>>, body: AstV) -> EnvV {
        EnvV { functions: self.functions.insert(name, (args, body)), ..self }
    }

    /// The value that reading `name` gives: that of the top frame, else that
    /// of the global frame. Frames in between are not searched.
    pub open spec fn fetch(self, name: Seq<char>) -> Option<ValueV> {
        if self.top().contains_key(name) {
            Some(self.top()[name])
        } else if self.frames[0].contains_key(name) {
            Some(self.frames[0][name])
        } else {
            None
        }
    }

    /// With a diagnostic reported.
    pub open spec fn report(self, msg: Seq<char>) -> EnvV {
        EnvV { console: self.console.push(EventV::Diagnostic(msg)), ..self }
    }

    /// With a piece of text printed.
    pub open spec fn print(self, text: Seq<char>) -> EnvV {
        EnvV { console: self.console.push(EventV::Output(text)), ..self }
    }
}

/// The state of an interpreter between evaluations.
pub struct Environment {
    pub envs: Vec<StringHashMap<Value>>,
    pub functions: StringHashMap<(Vec<String>, Ast)>,
    pub console: Console,
}

/// The content of a scope frame.
pub open spec fn frame_view(frame: StringHashMap<Value>) -> Map<Seq<char>, ValueV> {
    frame@.map_values(|v: Value| v@)
}

/// The content of a stored function.
pub open spec fn function_view(f: (Vec<String>, Ast)) -> (Seq<Seq<char>>, AstV) {
    (names_view(f.0@), f.1@)
}

impl View for Environment {
    type V = EnvV;

    open spec fn view(&self) -> EnvV {
        EnvV {
            frames: Seq::new(self.envs@.len(), |i: int| frame_view(self.envs@[i])),
            functions: self.functions@.map_values(|f: (Vec<String>, Ast)| function_view(f)),
            console: self.console@,
        }
    }
}

/// The content of an optional value.
pub open spec fn value_option_view(r: Option<Value>) -> Option<ValueV> {
    match r {
        Some(v) => Some(v@),
        None => None,
    }
}

impl Environment {
    /// An environment has at least the global frame.
    pub open spec fn wf(&self) -> bool {
        self.envs@.len() >= 1
    }

    /// The environment at the start: one empty global frame and no function.
    pub fn new() -> (r: Environment)
        ensures
            r.wf(),
            r@ == EnvV::initial(),
    {
        let mut ret = Environment {
            envs: Vec::new(),
            functions: StringHashMap::new(),
            console: Console::new(),
        };
        ret.envs.push(StringHashMap::new());
        proof {
            assert(frame_view(ret.envs@[0]) =~= Map::<Seq<char>, ValueV>::empty());
            assert(ret@.frames =~= EnvV::initial().frames);
            assert(ret@.functions =~= EnvV::initial().functions);
        }
        ret
    }

    /// The index of the top frame.
    pub fn wenv(&self) -> (r: usize)
        requires
            self.wf(),
        ensures
            r == self@.frames.len() - 1,
    {
        self.envs.len() - 1
    }

    /// Puts a fresh frame on top.
    pub fn push_env(&mut self)
        ensures
            final(self)@ == old(self)@.push_env(),
            old(self).wf() ==> final(self).wf(),
    {
        self.envs.push(StringHashMap::new());
        proof {
            assert(frame_view(self.envs@[self.envs@.len() - 1]) =~= Map::<Seq<char>, ValueV>::empty());
            assert(self@.frames =~= old(self)@.push_env().frames);
        }
    }

    /// Assigns `name`: in the global frame where it is bound there, else in
    /// the top frame.
    pub fn push_val(&mut self, name: &String, val: Value)
        requires
            old(self).wf(),
        ensures
            final(self).wf(),
            final(self)@ == old(self)@.push_val(name@, val@),
    {
        if self.envs[0].contains_key(name.as_str()) {
            self.insert_at(0, name, val);
        } else {
            let s = self.wenv();
            self.insert_at(s, name, val);
        }
    }

    /// Binds `name` in the top frame.
    pub fn force_push(&mut self, name: &String, val: Value)
        requires
            old(self).wf(),
        ensures
            final(self).wf(),
            final(self)@ == old(self)@.force_push(name@, val@),
    {
        let c = self.wenv();
        self.insert_at(c, name, val);
    }

    /// Binds `name` in the frame at `index`.
    fn insert_at(&mut self, index: usize, name: &String, val: Value)
        requires
            index < old(self).envs@.len(),
        ensures
            final(self).envs@.len() == old(self).envs@.len(),
            final(self)@ == (EnvV {
                frames: old(self)@.frames.update(
                    index as int,
                    old(self)@.frames[index as int].insert(name@, val@),
                ),
                ..old(self)@
            }),
    {
        let mut frame = StringHashMap::new();
        std::mem::swap(&mut frame, &mut self.envs[index]);
        frame.insert(name.clone(), val);
        std::mem::swap(&mut frame, &mut self.envs[index]);
        proof {
            let before = old(self).envs@[index as int];
            let after = self.envs@[index as int];
            assert(frame_view(after) =~= frame_view(before).insert(name@, val@));
            assert(self@.frames =~= old(self)@.frames.update(
                index as int,
                old(self)@.frames[index as int].insert(name@, val@),
            ));
        }
    }

    /// Defines the function `name`, in place of an earlier one of that name.
    pub fn push_function(&mut self, name: &String, args: &Vec<String>, val: &Ast)
        ensures
            final(self)@ == old(self)@.push_function(name@, names_view(args@), val@),
            final(self).envs == old(self).envs,
    {
        self.functions.insert(name.clone(), (clone_names(args), val.clone()));
        proof {
            assert(self@.functions =~= old(self)@.functions.insert(name@, (names_view(args@), val@)));
            assert(self@.frames =~= old(self)@.frames);
        }
    }

    /// Reads `name`: from the top frame, else from the global frame.
    pub fn fetch(&self, name: &String) -> (r: Option<Value>)
        requires
            self.wf(),
        ensures
            value_option_view(r) == self@.fetch(name@),
    {
        match self.envs[self.wenv()].get(name.as_str()) {
            Some(x) => {
                return Some(x.clone());
            },
            None => {},
        };
        match self.envs[0].get(name.as_str()) {
            Some(x) => Some(x.clone()),
            None => None,
        }
    }

    /// Takes the top frame off; the global frame stays.
    pub fn pop_env(&mut self)
        ensures
            final(self)@ == old(self)@.pop_env(),
            old(self).wf() ==> final(self).wf(),
    {
        if self.envs.len() > 1 {
            self.envs.pop();
            proof {
                assert(self@.frames =~= old(self)@.frames.drop_last());
            }
        }
    }
}

} // verus!
