//! The tool registry: the set of invocable capabilities keyed by name, and
//! the validation of call arguments against a tool's schema. Executing a
//! call is the driver's job; the registry decides, before any execution,
//! whether a name is known and its arguments satisfy the schema.

use vstd::prelude::*;
use crate::turns::{ArgValue, ToolArg};

verus! {

/// The type a tool parameter expects.
#[derive(Debug, Clone, Copy, PartialEq, Eq, Structural)]
pub enum ParamType {
    Text,
    Integer,
    Boolean,
}

/// One named parameter of a tool's argument schema.
#[derive(Debug, Clone)]
pub struct ParamSpec {
    pub name: String,
    pub ty: ParamType,
    pub required: bool,
}

/// A registered capability: a unique name and its argument schema. The
/// execution handle lives with the driver, keyed by the same name.
#[derive(Debug, Clone)]
pub struct ToolSpec {
    pub name: String,
    pub params: Vec<ParamSpec>,
}

/// The failures of the tool layer. All of them are recoverable for a run:
/// the loop records them and lets the next reasoning step adapt.
#[derive(Debug, Clone)]
pub enum ToolError {
    DuplicateTool,
    UnknownTool,
    ArgumentValidationError,
    ToolTimeout,
    ToolExecutionError { detail: String },
}

/// A value fits a parameter exactly when its variant matches the declared type.
pub open spec fn type_matches(t: ParamType, v: ArgValue) -> bool {
    match t {
        ParamType::Text => v is Text,
        ParamType::Integer => v is Integer,
        ParamType::Boolean => v is Boolean,
    }
}

/// Some argument in `args` carries this name.
pub open spec fn has_arg(args: Seq<ToolArg>, name: Seq<char>) -> bool {
    exists|i: int| 0 <= i < args.len() && args[i].name@ == name
}

/// An argument is admitted by the schema: a parameter of the same name
/// exists and the value's type matches it.
pub open spec fn arg_matches_schema(params: Seq<ParamSpec>, arg: ToolArg) -> bool {
    exists|i: int|
        0 <= i < params.len() && params[i].name@ == arg.name@ && type_matches(
            params[i].ty,
            arg.value,
        )
}

/// Arguments satisfy a schema exactly when every required parameter is
/// supplied and every supplied argument names a schema parameter of the
/// matching type (no unexpected extra, no wrong type, no missing required).
pub open spec fn args_valid(spec: ToolSpec, args: Seq<ToolArg>) -> bool {
    &&& forall|i: int|
        0 <= i < spec.params@.len() && spec.params@[i].required ==> has_arg(
            args,
            spec.params@[i].name@,
        )
    &&& forall|j: int| 0 <= j < args.len() ==> arg_matches_schema(spec.params@, args[j])
}

/// Holds the capabilities registered at process start; read-only afterwards.
pub struct ToolRegistry {
    specs: Vec<ToolSpec>,
}

impl ToolRegistry {
    /// The registered tool specs, in registration order.
    pub closed spec fn tools(&self) -> Seq<ToolSpec> {
        self.specs@
    }

    /// A tool of this name is registered.
    pub open spec fn has_tool(&self, name: Seq<char>) -> bool {
        exists|i: int| 0 <= i < self.tools().len() && self.tools()[i].name@ == name
    }

    /// Registered names are pairwise distinct.
    pub open spec fn wf(&self) -> bool {
        forall|i: int, j: int|
            0 <= i < j < self.tools().len() ==> self.tools()[i].name@ != self.tools()[j].name@
    }

    /// The registered tool of this name; well-defined under `wf` whenever
    /// the name is registered.
    pub open spec fn tool_named(&self, name: Seq<char>) -> ToolSpec
        recommends
            self.has_tool(name),
    {
        self.tools()[choose|i: int|
            0 <= i < self.tools().len() && self.tools()[i].name@ == name]
    }

    pub fn new() -> (r: Self)
        ensures
            r.wf(),
            r.tools() == Seq::<ToolSpec>::empty(),
    {
        ToolRegistry { specs: Vec::new() }
    }

    /// How many tools are registered.
    pub fn len(&self) -> (r: usize)
        ensures
            r == self.tools().len(),
    {
        self.specs.len()
    }

    /// The index of the tool of this name, if registered.
    fn find(&self, name: &String) -> (r: Option<usize>)
        ensures
            match r {
                Option::Some(i) => i < self.tools().len() && self.tools()[i as int].name@
                    == name@,
                Option::None => !self.has_tool(name@),
            },
    {
        let mut i: usize = 0;
        while i < self.specs.len()
            invariant
                i <= self.specs.len(),
                forall|k: int| 0 <= k < i ==> self.tools()[k].name@ != name@,
            decreases self.specs.len() - i,
        {
            if self.specs[i].name == *name {
                return Option::Some(i);
            }
            i += 1;
        }
        Option::None
    }

    /// Adds a capability; fails with `DuplicateTool` exactly when the name
    /// is already registered, and then leaves the registry unchanged.
    pub fn register(&mut self, spec: ToolSpec) -> (r: Result<(), ToolError>)
        requires
            old(self).wf(),
        ensures
            final(self).wf(),
            r is Ok <==> !old(self).has_tool(spec.name@),
            r is Ok ==> final(self).tools() == old(self).tools().push(spec),
            r is Err ==> final(self).tools() == old(self).tools() && r == Result::<(),
            ToolError>::Err(ToolError::DuplicateTool),
    {
        if self.find(&spec.name).is_some() {
            return Result::Err(ToolError::DuplicateTool);
        }
        self.specs.push(spec);
        proof {
            let newt = self.tools();
            let oldt = old(self).tools();
            assert forall|i: int, j: int| 0 <= i < j < newt.len() implies newt[i].name@
                != newt[j].name@ by {
                if j < newt.len() - 1 {
                    assert(oldt[i].name@ != oldt[j].name@);
                } else {
                    assert(newt[i] == oldt[i]);
                    assert(!old(self).has_tool(spec.name@));
                }
            }
        }
        Result::Ok(())
    }

    /// Looks a capability up by name; returns it exactly when registered.
    pub fn lookup(&self, name: &String) -> (r: Option<&ToolSpec>)
        ensures
            match r {
                Option::Some(spec) => self.has_tool(name@) && spec.name@ == name@
                    && self.tools().contains(*spec) && (self.wf() ==> *spec == self.tool_named(
                    name@,
                )),
                Option::None => !self.has_tool(name@),
            },
    {
        match self.find(name) {
            Option::Some(i) => {
                let spec = &self.specs[i];
                proof {
                    assert(self.tools()[i as int] == *spec);
                    if self.wf() {
                        let j = choose|j: int|
                            0 <= j < self.tools().len() && self.tools()[j].name@ == name@;
                        assert(self.tools()[j].name@ == name@);
                        assert(j == i);
                    }
                }
                Option::Some(spec)
            },
            Option::None => Option::None,
        }
    }

    /// Decides whether an invocation may be dispatched: `UnknownTool` exactly
    /// when the name is absent, `ArgumentValidationError` exactly when the
    /// name is present but the arguments break its schema, and otherwise the
    /// spec the driver must execute.
    pub fn check_invocation(&self, name: &String, args: &Vec<ToolArg>) -> (r: Result<
        &ToolSpec,
        ToolError,
    >)
        requires
            self.wf(),
        ensures
            match r {
                Result::Ok(spec) => self.has_tool(name@) && spec.name@ == name@ && args_valid(
                    *spec,
                    args@,
                ),
                Result::Err(e) => match e {
                    ToolError::UnknownTool => !self.has_tool(name@),
                    ToolError::ArgumentValidationError => self.has_tool(name@) && forall|i: int|
                        0 <= i < self.tools().len() && self.tools()[i].name@ == name@
                            ==> !args_valid(self.tools()[i], args@),
                    _ => false,
                },
            },
    {
        match self.lookup(name) {
            Option::None => Result::Err(ToolError::UnknownTool),
            Option::Some(spec) => {
                if validate_args(spec, args) {
                    Result::Ok(spec)
                } else {
                    proof {
                        let k = choose|k: int|
                            0 <= k < self.tools().len() && self.tools()[k] == *spec;
                        assert(forall|i: int|
                            0 <= i < self.tools().len() && self.tools()[i].name@ == name@
                                ==> self.tools()[i] == self.tools()[k]);
                    }
                    Result::Err(ToolError::ArgumentValidationError)
                }
            },
        }
    }
}

/// Whether some schema parameter admits this argument: same name, matching type.
fn arg_admitted(params: &Vec<ParamSpec>, arg: &ToolArg) -> (r: bool)
    ensures
        r == arg_matches_schema(params@, *arg),
{
    let mut i: usize = 0;
    while i < params.len()
        invariant
            i <= params@.len(),
            forall|k: int| #![trigger params@[k]]
                0 <= k < i ==> !(params@[k].name@ == arg.name@ && type_matches(
                    params@[k].ty,
                    arg.value,
                )),
        decreases params@.len() - i,
    {
        if params[i].name == arg.name && value_has_type(params[i].ty, &arg.value) {
            return true;
        }
        i += 1;
    }
    false
}

/// Whether some argument carries this name.
fn find_arg(args: &Vec<ToolArg>, name: &String) -> (r: bool)
    ensures
        r == has_arg(args@, name@),
{
    let mut i: usize = 0;
    while i < args.len()
        invariant
            i <= args.len(),
            forall|k: int| 0 <= k < i ==> args@[k].name@ != name@,
        decreases args.len() - i,
    {
        if args[i].name == *name {
            return true;
        }
        i += 1;
    }
    false
}

fn value_has_type(t: ParamType, v: &ArgValue) -> (r: bool)
    ensures
        r == type_matches(t, *v),
{
    match (t, v) {
        (ParamType::Text, ArgValue::Text(_)) => true,
        (ParamType::Integer, ArgValue::Integer(_)) => true,
        (ParamType::Boolean, ArgValue::Boolean(_)) => true,
        _ => false,
    }
}

/// Decides `args_valid`: every required parameter supplied, every supplied
/// argument known to the schema with a matching type.
pub fn validate_args(spec: &ToolSpec, args: &Vec<ToolArg>) -> (r: bool)
    ensures
        r == args_valid(*spec, args@),
{
    let mut i: usize = 0;
    while i < spec.params.len()
        invariant
            i <= spec.params@.len(),
            forall|k: int|
                0 <= k < i && spec.params@[k].required ==> has_arg(args@, spec.params@[k].name@),
        decreases spec.params@.len() - i,
    {
        if spec.params[i].required && !find_arg(args, &spec.params[i].name) {
            return false;
        }
        i += 1;
    }
    let mut j: usize = 0;
    while j < args.len()
        invariant
            j <= args@.len(),
            forall|k: int|
                0 <= k < spec.params@.len() && spec.params@[k].required ==> has_arg(
                    args@,
                    spec.params@[k].name@,
                ),
            forall|k: int| 0 <= k < j ==> arg_matches_schema(spec.params@, args@[k]),
        decreases args@.len() - j,
    {
        if !arg_admitted(&spec.params, &args[j]) {
            return false;
        }
        j += 1;
    }
    true
}

} // verus!
