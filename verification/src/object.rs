//! The run-time value model and the lexical environment.
//!
//! Values form a closed family: integers, booleans, null, strings, arrays,
//! functions with an optionally captured environment, builtin markers, the
//! transient return marker and the self-reference sentinel used by
//! `let rec`.  An environment is an ordered mapping from names to values
//! with an optional outer environment; lookup walks the chain outward.

use vstd::prelude::*;

use crate::ast::{
    clone_block, clone_idents, idents_view, join_chars, render_block, stmts_view, BlockStatement,
    Identifier, StmtV,
};
use crate::strutil::{int_chars, int_to_string, push_str_chars, str_eq, string_from_chars};

verus! {

/// The builtin functions of the language.
#[derive(Clone, Copy, Eq, Debug, PartialEq, Structural)]
pub enum Builtin {
    Len,
    Print,
    Println,
    Push,
    Tail,
}

/// The mathematical value of a run-time object.
#[verifier::ext_equal]
pub ghost enum ObjV {
    Int { value: i64 },
    Bool { value: bool },
    Null,
    Str { value: Seq<char> },
    Arr { items: Seq<ObjV> },
    Fun { params: Seq<Seq<char>>, body: Seq<StmtV>, env: Option<EnvV> },
    Builtin { which: Builtin },
    Ret { value: Box<ObjV> },
    SelfRef,
}

/// The mathematical value of an environment: the bindings of the current
/// frame, oldest first, and the optional outer environment.
#[verifier::ext_equal]
pub ghost struct EnvV {
    pub frame: Seq<(Seq<char>, ObjV)>,
    pub outer: Option<Box<EnvV>>,
}

/// Looks a name up in one frame; later bindings shadow earlier ones.
pub open spec fn frame_lookup(frame: Seq<(Seq<char>, ObjV)>, name: Seq<char>) -> Option<ObjV>
    decreases frame.len(),
{
    if frame.len() == 0 {
        None
    } else if frame.last().0 == name {
        Some(frame.last().1)
    } else {
        frame_lookup(frame.drop_last(), name)
    }
}

/// Looks a name up along the environment chain, innermost frame first.
pub open spec fn env_lookup(env: EnvV, name: Seq<char>) -> Option<ObjV>
    decreases env,
{
    match frame_lookup(env.frame, name) {
        Some(v) => Some(v),
        None => match env.outer {
            Some(o) => env_lookup(*o, name),
            None => None,
        },
    }
}

/// Inserting binds the name in the current frame only.
pub open spec fn env_insert(env: EnvV, name: Seq<char>, value: ObjV) -> EnvV {
    EnvV { frame: env.frame.push((name, value)), outer: env.outer }
}

/// A fresh innermost environment whose outer is `env`.
pub open spec fn env_child(env: EnvV) -> EnvV {
    EnvV { frame: Seq::empty(), outer: Some(Box::new(env)) }
}

/// The empty root environment.
pub open spec fn env_empty() -> EnvV {
    EnvV { frame: Seq::empty(), outer: None }
}

/// Binding a name and then looking it up yields the bound value; any other
/// name resolves as before.
pub proof fn lemma_env_insert_lookup(env: EnvV, name: Seq<char>, value: ObjV, other: Seq<char>)
    ensures
        env_lookup(env_insert(env, name, value), name) == Some(value),
        other != name ==> env_lookup(env_insert(env, name, value), other) == env_lookup(
            env,
            other,
        ),
{
    let f = env.frame.push((name, value));
    assert(f.last() == (name, value));
    assert(f.drop_last() =~= env.frame);
}

// ===== The executable value types =====

/// An integer value.
pub struct Integer {
    pub value: i64,
}

/// A boolean value.
pub struct Boolean {
    pub value: bool,
}

/// The null value.
pub struct Null {}

/// A string value.
pub struct StringObject {
    pub value: String,
}

/// An array of values.
pub struct Array {
    pub items: Vec<Object>,
}

/// A function value.  `env` is the captured environment of a closure; a
/// function defined with `def` captures nothing and carries `None`.
pub struct Function {
    pub parameters: Vec<Identifier>,
    pub body: BlockStatement,
    pub env: Option<Environment>,
}

/// A marker naming one of the builtin functions.
pub struct BuiltinFn {
    pub builtin: Builtin,
}

/// The transient marker that carries a `return` value up to the enclosing
/// function boundary; never observable to user code.
pub struct ReturnValue {
    pub value: Box<Object>,
}

/// The sentinel bound to a `let rec` name while its value is evaluated.
pub struct SelfRef {}

/// The closed set of run-time values.
pub enum Object {
    Integer(Integer),
    Boolean(Boolean),
    Null(Null),
    Str(StringObject),
    Array(Array),
    Function(Function),
    Builtin(BuiltinFn),
    ReturnValue(ReturnValue),
    SelfRef(SelfRef),
}

/// An ordered mapping from names to values, with an optional outer
/// environment for lexical scoping.
pub struct Environment {
    pub mapping: Vec<(String, Object)>,
    pub outer: Option<Box<Environment>>,
}

// ===== Views =====

/// The value of a run-time object.
pub open spec fn obj_view(o: Object) -> ObjV
    decreases o, 1nat,
{
    match o {
        Object::Integer(n) => ObjV::Int { value: n.value },
        Object::Boolean(b) => ObjV::Bool { value: b.value },
        Object::Null(_) => ObjV::Null,
        Object::Str(s) => ObjV::Str { value: s.value@ },
        Object::Array(a) => ObjV::Arr { items: objs_view(a.items@) },
        Object::Function(f) => ObjV::Fun {
            params: idents_view(f.parameters@),
            body: stmts_view(f.body.statements@),
            env: match f.env {
                Some(e) => Some(env_view(e)),
                None => None,
            },
        },
        Object::Builtin(b) => ObjV::Builtin { which: b.builtin },
        Object::ReturnValue(r) => ObjV::Ret { value: Box::new(obj_view(*r.value)) },
        Object::SelfRef(_) => ObjV::SelfRef,
    }
}

/// The values of a sequence of objects.
pub open spec fn objs_view(os: Seq<Object>) -> Seq<ObjV>
    decreases os, 0nat,
{
    if os.len() == 0 {
        Seq::empty()
    } else {
        objs_view(os.drop_last()).push(obj_view(os.last()))
    }
}

/// The value of one environment frame.
pub open spec fn frame_view(m: Seq<(String, Object)>) -> Seq<(Seq<char>, ObjV)>
    decreases m, 0nat,
{
    if m.len() == 0 {
        Seq::empty()
    } else {
        frame_view(m.drop_last()).push((m.last().0@, obj_view(m.last().1)))
    }
}

/// The value of an environment.
pub open spec fn env_view(e: Environment) -> EnvV
    decreases e, 2nat,
{
    EnvV {
        frame: frame_view(e.mapping@),
        outer: match e.outer {
            Some(o) => Some(Box::new(env_view(*o))),
            None => None,
        },
    }
}

impl View for Object {
    type V = ObjV;

    open spec fn view(&self) -> ObjV {
        obj_view(*self)
    }
}

impl View for Environment {
    type V = EnvV;

    open spec fn view(&self) -> EnvV {
        env_view(*self)
    }
}

/// `objs_view` maps the sequence element by element.
pub proof fn lemma_objs_view_len(os: Seq<Object>)
    ensures
        objs_view(os).len() == os.len(),
        forall|i: int| 0 <= i < os.len() ==> objs_view(os)[i] == obj_view(os[i]),
    decreases os.len(),
{
    if os.len() > 0 {
        lemma_objs_view_len(os.drop_last());
    }
}

/// `frame_view` maps the frame element by element.
pub proof fn lemma_frame_view_len(m: Seq<(String, Object)>)
    ensures
        frame_view(m).len() == m.len(),
        forall|i: int|
            0 <= i < m.len() ==> frame_view(m)[i] == (m[i].0@, obj_view(m[i].1)),
    decreases m.len(),
{
    if m.len() > 0 {
        lemma_frame_view_len(m.drop_last());
    }
}

// ===== The inspect rendering =====

/// The inspect form of a value, as the REPL and `print` show it.
pub open spec fn inspect_obj(o: ObjV) -> Seq<char>
    decreases o, 1nat,
{
    match o {
        ObjV::Int { value } => int_chars(value as int),
        ObjV::Bool { value } => if value {
            "true"@
        } else {
            "false"@
        },
        ObjV::Null => "null"@,
        ObjV::Str { value } => value,
        ObjV::Arr { items } => "["@.add(join_chars(inspect_objs(items), ", "@)).add("]"@),
        ObjV::Fun { params, body, .. } => "fun("@.add(join_chars(params, ","@)).add(") "@).add(
            render_block(body),
        ),
        ObjV::Builtin { .. } => "builtin_function"@,
        ObjV::Ret { value } => inspect_obj(*value),
        ObjV::SelfRef => "self_reference"@,
    }
}

/// The inspect forms of a sequence of values.
pub open spec fn inspect_objs(os: Seq<ObjV>) -> Seq<Seq<char>>
    decreases os, 0nat,
{
    if os.len() == 0 {
        Seq::empty()
    } else {
        inspect_objs(os.drop_last()).push(inspect_obj(os.last()))
    }
}

fn inspect_into(o: &Object, out: &mut Vec<char>)
    ensures
        final(out)@ == old(out)@.add(inspect_obj(obj_view(*o))),
    decreases *o, 2nat,
{
    match o {
        Object::Integer(n) => {
            let s = int_to_string(n.value);
            push_str_chars(out, s.as_str());
        },
        Object::Boolean(b) => {
            if b.value {
                push_str_chars(out, "true");
            } else {
                push_str_chars(out, "false");
            }
        },
        Object::Null(_) => {
            push_str_chars(out, "null");
        },
        Object::Str(s) => {
            push_str_chars(out, s.value.as_str());
        },
        Object::Array(a) => {
            push_str_chars(out, "[");
            inspect_items_into(&a.items, out);
            push_str_chars(out, "]");
            proof {
                assert(final(out)@ =~= old(out)@.add(inspect_obj(obj_view(*o))));
            }
        },
        Object::Function(f) => {
            push_str_chars(out, "fun(");
            let params = crate::ast::render_params_string(&f.parameters);
            push_str_chars(out, params.as_str());
            push_str_chars(out, ") ");
            let body = f.body.string();
            push_str_chars(out, body.as_str());
            proof {
                assert(final(out)@ =~= old(out)@.add(inspect_obj(obj_view(*o))));
            }
        },
        Object::Builtin(_) => {
            push_str_chars(out, "builtin_function");
        },
        Object::ReturnValue(r) => {
            inspect_into(&r.value, out);
        },
        Object::SelfRef(_) => {
            push_str_chars(out, "self_reference");
        },
    }
}

/// Renders a comma-separated list of item inspect forms.
fn inspect_items_into(os: &Vec<Object>, out: &mut Vec<char>)
    ensures
        final(out)@ == old(out)@.add(join_chars(inspect_objs(objs_view(os@)), ", "@)),
    decreases *os, 3nat,
{
    let ghost base = out@;
    let ghost views = objs_view(os@);
    proof {
        lemma_objs_view_len(os@);
    }
    let mut i: usize = 0;
    while i < os.len()
        invariant
            i <= os.len(),
            views == objs_view(os@),
            views.len() == os@.len(),
            forall|j: int| 0 <= j < os@.len() ==> views[j] == obj_view(os@[j]),
            out@ == base.add(join_chars(inspect_objs(views.take(i as int)), ", "@)),
        decreases os@.len() - i,
    {
        if i > 0 {
            push_str_chars(out, ", ");
        }
        inspect_into(&os[i], out);
        proof {
            let parts = inspect_objs(views.take(i as int));
            crate::ast::lemma_join_push(parts, inspect_obj(views[i as int]), ", "@);
            assert(views.take(i + 1).drop_last() =~= views.take(i as int));
            assert(inspect_objs(views.take(i + 1)) == parts.push(inspect_obj(views[i as int])));
            assert(out@ =~= base.add(join_chars(inspect_objs(views.take(i + 1)), ", "@)));
        }
        i = i + 1;
    }
    proof {
        assert(views.take(views.len() as int) =~= views);
    }
}

impl Object {
    /// The inspect form of this value.
    pub fn inspect(&self) -> (r: String)
        ensures
            r@ == inspect_obj(obj_view(*self)),
    {
        let mut out: Vec<char> = Vec::new();
        inspect_into(self, &mut out);
        string_from_chars(&out)
    }
}

// ===== Deep clones =====

/// Clones a value; the clone has the same mathematical value.
pub fn clone_object(o: &Object) -> (r: Object)
    ensures
        obj_view(r) == obj_view(*o),
    decreases *o, 3nat,
{
    match o {
        Object::Integer(n) => Object::Integer(Integer { value: n.value }),
        Object::Boolean(b) => Object::Boolean(Boolean { value: b.value }),
        Object::Null(_) => Object::Null(Null {}),
        Object::Str(s) => Object::Str(StringObject { value: s.value.clone() }),
        Object::Array(a) => Object::Array(Array { items: clone_objects(&a.items) }),
        Object::Function(f) => Object::Function(clone_function(f)),
        Object::Builtin(b) => Object::Builtin(BuiltinFn { builtin: b.builtin }),
        Object::ReturnValue(r) => Object::ReturnValue(
            ReturnValue { value: Box::new(clone_object(&r.value)) },
        ),
        Object::SelfRef(_) => Object::SelfRef(SelfRef {}),
    }
}

pub(crate) fn clone_objects(os: &Vec<Object>) -> (r: Vec<Object>)
    ensures
        objs_view(r@) == objs_view(os@),
    decreases *os, 4nat,
{
    proof {
        lemma_objs_view_len(os@);
    }
    let mut r: Vec<Object> = Vec::new();
    let mut i: usize = 0;
    while i < os.len()
        invariant
            i <= os.len(),
            r@.len() == i,
            forall|j: int| 0 <= j < os@.len() ==> objs_view(os@)[j] == obj_view(os@[j]),
            forall|j: int| 0 <= j < i ==> obj_view(r@[j]) == obj_view(os@[j]),
        decreases os@.len() - i,
    {
        let c = clone_object(&os[i]);
        r.push(c);
        i = i + 1;
    }
    proof {
        lemma_objs_view_len(r@);
        assert(objs_view(r@) =~= objs_view(os@));
    }
    r
}

/// Clones a function value; the clone has the same mathematical value.
pub fn clone_function(f: &Function) -> (r: Function)
    ensures
        obj_view(Object::Function(r)) == obj_view(Object::Function(*f)),
    decreases *f, 5nat,
{
    let env = match &f.env {
        Some(e) => Some(clone_env(e)),
        None => None,
    };
    Function { parameters: clone_idents(&f.parameters), body: clone_block(&f.body), env }
}

fn clone_frame(m: &Vec<(String, Object)>) -> (r: Vec<(String, Object)>)
    ensures
        frame_view(r@) == frame_view(m@),
    decreases *m, 5nat,
{
    proof {
        lemma_frame_view_len(m@);
    }
    let mut r: Vec<(String, Object)> = Vec::new();
    let mut i: usize = 0;
    while i < m.len()
        invariant
            i <= m.len(),
            r@.len() == i,
            forall|j: int|
                0 <= j < m@.len() ==> frame_view(m@)[j] == (m@[j].0@, obj_view(m@[j].1)),
            forall|j: int|
                0 <= j < i ==> r@[j].0@ == m@[j].0@ && obj_view(r@[j].1) == obj_view(m@[j].1),
        decreases m@.len() - i,
    {
        let pair = &m[i];
        let name = pair.0.clone();
        let value = clone_object(&pair.1);
        r.push((name, value));
        i = i + 1;
    }
    proof {
        lemma_frame_view_len(r@);
        assert(frame_view(r@) =~= frame_view(m@));
    }
    r
}

/// Clones an environment chain; the clone has the same mathematical value.
pub fn clone_env(e: &Environment) -> (r: Environment)
    ensures
        env_view(r) == env_view(*e),
    decreases *e, 6nat,
{
    let outer = match &e.outer {
        Some(o) => Some(Box::new(clone_env(o))),
        None => None,
    };
    Environment { mapping: clone_frame(&e.mapping), outer }
}

// ===== Constructors =====

impl Integer {
    /// Builds an integer value.
    pub fn new(value: i64) -> (r: Self)
        ensures
            r == (Integer { value }),
    {
        Integer { value }
    }

    /// The inspect form: the value in decimal.
    pub fn inspect(&self) -> (r: String)
        ensures
            r@ == int_chars(self.value as int),
    {
        int_to_string(self.value)
    }
}

impl Boolean {
    /// Builds a boolean value.
    pub fn new(value: bool) -> (r: Self)
        ensures
            r == (Boolean { value }),
    {
        Boolean { value }
    }

    /// The inspect form: `true` or `false`.
    pub fn inspect(&self) -> (r: String)
        ensures
            self.value ==> r@ == "true"@,
            !self.value ==> r@ == "false"@,
    {
        if self.value {
            "true".to_owned()
        } else {
            "false".to_owned()
        }
    }
}

impl Null {
    /// Builds the null value.
    pub fn new() -> (r: Self) {
        Null {}
    }

    /// The inspect form: `null`.
    pub fn inspect(&self) -> (r: String)
        ensures
            r@ == "null"@,
    {
        "null".to_owned()
    }
}

impl StringObject {
    /// Builds a string value.
    pub fn new(value: &str) -> (r: Self)
        ensures
            r.value@ == value@,
    {
        StringObject { value: value.to_owned() }
    }

    /// The inspect form: the text itself.
    pub fn inspect(&self) -> (r: String)
        ensures
            r@ == self.value@,
    {
        self.value.clone()
    }
}

impl Array {
    /// Builds an array value from its items.
    pub fn new(items: Vec<Object>) -> (r: Self)
        ensures
            r == (Array { items }),
    {
        Array { items }
    }

    /// The inspect form: item inspect forms between brackets.
    pub fn inspect(&self) -> (r: String)
        ensures
            r@ == inspect_obj(ObjV::Arr { items: objs_view(self.items@) }),
    {
        let mut out: Vec<char> = Vec::new();
        push_str_chars(&mut out, "[");
        inspect_items_into(&self.items, &mut out);
        push_str_chars(&mut out, "]");
        proof {
            assert(out@ =~= inspect_obj(ObjV::Arr { items: objs_view(self.items@) }));
        }
        string_from_chars(&out)
    }
}

impl Function {
    /// Builds a function value; `env` is `Some` captured environment for a
    /// closure and `None` for a `def`-style function.
    pub fn new(parameters: &Vec<Identifier>, body: BlockStatement, env: Option<Environment>) -> (r:
        Self)
        ensures
            idents_view(r.parameters@) == idents_view(parameters@),
            r.body == body,
            r.env == env,
    {
        Function { parameters: clone_idents(parameters), body, env }
    }
}

impl Function {
    /// The inspect form, `fun(params) { body }`.
    pub fn inspect(&self) -> (r: String)
        ensures
            r@ == inspect_obj(obj_view(Object::Function(*self))),
    {
        let mut out: Vec<char> = Vec::new();
        push_str_chars(&mut out, "fun(");
        let params = crate::ast::render_params_string(&self.parameters);
        push_str_chars(&mut out, params.as_str());
        push_str_chars(&mut out, ") ");
        let body = self.body.string();
        push_str_chars(&mut out, body.as_str());
        proof {
            assert(out@ =~= inspect_obj(obj_view(Object::Function(*self))));
        }
        string_from_chars(&out)
    }
}

impl ReturnValue {
    /// Wraps a value in the return marker.
    pub fn new(value: Box<Object>) -> (r: Self)
        ensures
            r == (ReturnValue { value }),
    {
        ReturnValue { value }
    }

    /// The inspect form: that of the carried value.
    pub fn inspect(&self) -> (r: String)
        ensures
            r@ == inspect_obj(obj_view(*self.value)),
    {
        self.value.inspect()
    }
}

impl BuiltinFn {
    /// Builds the marker for one builtin function.
    pub fn new(builtin: Builtin) -> (r: Self)
        ensures
            r == (BuiltinFn { builtin }),
    {
        BuiltinFn { builtin }
    }

    /// The inspect form of any builtin.
    pub fn inspect(&self) -> (r: String)
        ensures
            r@ == "builtin_function"@,
    {
        "builtin_function".to_owned()
    }
}

impl SelfRef {
    /// Builds the self-reference sentinel.
    pub fn new() -> (r: Self) {
        SelfRef {}
    }
}

// ===== The environment, executably =====

impl Environment {
    /// Builds the empty root environment.
    pub fn new() -> (r: Self)
        ensures
            env_view(r) == env_empty(),
    {
        let mapping: Vec<(String, Object)> = Vec::new();
        proof {
            assert(mapping@.len() == 0);
            assert(frame_view(mapping@) =~= Seq::<(Seq<char>, ObjV)>::empty());
        }
        let r = Environment { mapping, outer: None };
        proof {
            assert(r.mapping@.len() == 0);
            assert(env_view(r).frame == frame_view(r.mapping@));
            assert(env_view(r).frame =~= env_empty().frame);
            assert(env_view(r) =~= env_empty());
        }
        r
    }

    /// Builds a fresh environment whose outer scope is a copy of `outer`.
    pub fn new_wrapped(outer: &Environment) -> (r: Self)
        ensures
            env_view(r) == env_child(env_view(*outer)),
    {
        let copy = clone_env(outer);
        let mapping: Vec<(String, Object)> = Vec::new();
        proof {
            assert(mapping@.len() == 0);
        }
        let r = Environment { mapping, outer: Some(Box::new(copy)) };
        proof {
            assert(r.mapping@.len() == 0);
            assert(env_view(r).frame == frame_view(r.mapping@));
            assert(frame_view(r.mapping@) =~= Seq::<(Seq<char>, ObjV)>::empty());
            assert(env_view(r).frame =~= env_child(env_view(*outer)).frame);
            assert(env_view(r) =~= env_child(env_view(*outer)));
        }
        r
    }

    /// Binds `id` to `value` in the current frame, shadowing any earlier
    /// binding of the same name.
    pub fn insert(&mut self, id: &Identifier, value: Object)
        ensures
            env_view(*final(self)) == env_insert(env_view(*old(self)), id.value@, obj_view(value)),
    {
        let ghost old_env = env_view(*self);
        let name = id.value.clone();
        let ghost v = obj_view(value);
        self.mapping.push((name, value));
        proof {
            assert(self.mapping@.drop_last() =~= old(self).mapping@);
            assert(frame_view(self.mapping@) == frame_view(old(self).mapping@).push(
                (id.value@, v),
            ));
            assert(env_view(*self) =~= env_insert(old_env, id.value@, v));
        }
    }

    /// Looks `id` up, walking the chain outward until a frame binds it.
    pub fn get(&self, id: &str) -> (r: Option<&Object>)
        ensures
            match r {
                Some(o) => env_lookup(env_view(*self), id@) == Some(obj_view(*o)),
                None => env_lookup(env_view(*self), id@) is None,
            },
        decreases *self,
    {
        let ghost frame = frame_view(self.mapping@);
        proof {
            lemma_frame_view_len(self.mapping@);
        }
        let mut i: usize = self.mapping.len();
        proof {
            assert(frame.take(frame.len() as int) =~= frame);
        }
        while i > 0
            invariant
                i <= self.mapping@.len(),
                frame == frame_view(self.mapping@),
                frame.len() == self.mapping@.len(),
                forall|j: int|
                    0 <= j < self.mapping@.len() ==> frame[j] == (
                        self.mapping@[j].0@,
                        obj_view(self.mapping@[j].1),
                    ),
                frame_lookup(frame, id@) == frame_lookup(frame.take(i as int), id@),
            decreases i,
        {
            i = i - 1;
            let pair = &self.mapping[i];
            if str_eq(&pair.0, id) {
                proof {
                    assert(frame.take(i + 1).last() == frame[i as int]);
                    assert(frame_lookup(frame.take(i + 1), id@) == Some(
                        obj_view(self.mapping@[i as int].1),
                    ));
                }
                return Some(&pair.1);
            }
            proof {
                assert(frame.take(i + 1).last() == frame[i as int]);
                assert(frame.take(i + 1).drop_last() =~= frame.take(i as int));
            }
        }
        proof {
            assert(frame.take(0) =~= Seq::<(Seq<char>, ObjV)>::empty());
            assert(frame_lookup(frame, id@) is None);
        }
        match &self.outer {
            Some(o) => o.get(id),
            None => None,
        }
    }
}

} // verus!
