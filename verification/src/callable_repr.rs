//! Decisions of the Boogie backend that depend only on the shape of the
//! callable being compiled.

use vstd::prelude::*;

use crate::ident::Path;

verus! {

/// How a callable is represented in Boogie: as a function, or as a
/// procedure.
#[derive(Clone, Copy, PartialEq, Eq, Structural, Debug)]
pub enum CallableRepr {
    Fn,
    Proc,
}

/// The callables that are always compiled to a given form, by the one
/// segment of their path.
pub open spec fn blocked_repr1(a: Seq<char>) -> Option<CallableRepr> {
    if a == "ValueReg"@ {
        Some(CallableRepr::Proc)
    } else if a == "initRegState"@ {
        Some(CallableRepr::Proc)
    } else if a == "initOperandId"@ {
        Some(CallableRepr::Proc)
    } else if a == "initInputValueId"@ {
        Some(CallableRepr::Proc)
    } else if a == "addLiveFloatReg"@ {
        Some(CallableRepr::Proc)
    } else {
        None
    }
}

/// The callables that are always compiled to a given form, by the two
/// segments of their path.
pub open spec fn blocked_repr2(a: Seq<char>, b: Seq<char>) -> Option<CallableRepr> {
    if a == "ValueReg"@ && b == "scratchReg"@ {
        Some(CallableRepr::Proc)
    } else if a == "GeneralRegSet"@ && b == "empty"@ {
        Some(CallableRepr::Proc)
    } else if a == "GeneralRegSet"@ && b == "volatile"@ {
        Some(CallableRepr::Proc)
    } else if a == "GeneralRegSet"@ && b == "intersect"@ {
        Some(CallableRepr::Proc)
    } else if a == "GeneralRegSet"@ && b == "difference"@ {
        Some(CallableRepr::Proc)
    } else if a == "GeneralRegSet"@ && b == "contains"@ {
        Some(CallableRepr::Fn)
    } else if a == "GeneralRegSet"@ && b == "add"@ {
        Some(CallableRepr::Proc)
    } else if a == "GeneralRegSet"@ && b == "take"@ {
        Some(CallableRepr::Proc)
    } else if a == "FloatRegSet"@ && b == "empty"@ {
        Some(CallableRepr::Proc)
    } else if a == "FloatRegSet"@ && b == "volatile"@ {
        Some(CallableRepr::Proc)
    } else if a == "FloatRegSet"@ && b == "intersect"@ {
        Some(CallableRepr::Proc)
    } else if a == "FloatRegSet"@ && b == "difference"@ {
        Some(CallableRepr::Proc)
    } else if a == "FloatRegSet"@ && b == "contains"@ {
        Some(CallableRepr::Fn)
    } else if a == "FloatRegSet"@ && b == "add"@ {
        Some(CallableRepr::Proc)
    } else if a == "FloatRegSet"@ && b == "take"@ {
        Some(CallableRepr::Proc)
    } else if a == "MoveResolver"@ && b == "reset"@ {
        Some(CallableRepr::Proc)
    } else if a == "MoveResolver"@ && b == "addRegMove"@ {
        Some(CallableRepr::Proc)
    } else if a == "MoveResolver"@ && b == "addFloatMove"@ {
        Some(CallableRepr::Proc)
    } else if a == "MoveResolver"@ && b == "resolve"@ {
        Some(CallableRepr::Proc)
    } else if a == "ABIFunction"@ && b == "clobberVolatileRegs"@ {
        Some(CallableRepr::Proc)
    } else if a == "MASM"@ && b == "getValue"@ {
        Some(CallableRepr::Proc)
    } else if a == "MASM"@ && b == "setValue"@ {
        Some(CallableRepr::Proc)
    } else if a == "MASM"@ && b == "getData"@ {
        Some(CallableRepr::Proc)
    } else if a == "MASM"@ && b == "setData"@ {
        Some(CallableRepr::Proc)
    } else if a == "MASM"@ && b == "getFloatData"@ {
        Some(CallableRepr::Proc)
    } else if a == "MASM"@ && b == "setFloatData"@ {
        Some(CallableRepr::Proc)
    } else if a == "MASM"@ && b == "stackPush"@ {
        Some(CallableRepr::Proc)
    } else if a == "MASM"@ && b == "stackPop"@ {
        Some(CallableRepr::Proc)
    } else if a == "MASM"@ && b == "stackStore"@ {
        Some(CallableRepr::Proc)
    } else if a == "MASM"@ && b == "stackLoad"@ {
        Some(CallableRepr::Proc)
    } else if a == "MASM"@ && b == "stackPushLiveGeneralReg"@ {
        Some(CallableRepr::Proc)
    } else if a == "MASM"@ && b == "stackPopLiveGeneralReg"@ {
        Some(CallableRepr::Proc)
    } else if a == "MASM"@ && b == "stackPushLiveFloatReg"@ {
        Some(CallableRepr::Proc)
    } else if a == "MASM"@ && b == "stackPopLiveFloatReg"@ {
        Some(CallableRepr::Proc)
    } else if a == "CacheIR"@ && b == "hasAvailableReg"@ {
        Some(CallableRepr::Proc)
    } else if a == "CacheIR"@ && b == "isAllocatedValueReg"@ {
        Some(CallableRepr::Proc)
    } else if a == "CacheIR"@ && b == "isAllocatedReg"@ {
        Some(CallableRepr::Proc)
    } else if a == "CacheIR"@ && b == "allocateValueReg"@ {
        Some(CallableRepr::Proc)
    } else if a == "CacheIR"@ && b == "releaseValueReg"@ {
        Some(CallableRepr::Proc)
    } else if a == "CacheIR"@ && b == "allocateReg"@ {
        Some(CallableRepr::Proc)
    } else if a == "CacheIR"@ && b == "allocateKnownReg"@ {
        Some(CallableRepr::Proc)
    } else if a == "CacheIR"@ && b == "releaseReg"@ {
        Some(CallableRepr::Proc)
    } else if a == "CacheIR"@ && b == "allocateAvailableFloatRegUnchecked"@ {
        Some(CallableRepr::Proc)
    } else if a == "CacheIR"@ && b == "releaseFloatReg"@ {
        Some(CallableRepr::Proc)
    } else if a == "CacheIR"@ && b == "defineTypedId"@ {
        Some(CallableRepr::Proc)
    } else if a == "CacheIR"@ && b == "defineValueId"@ {
        Some(CallableRepr::Proc)
    } else if a == "CacheIR"@ && b == "getOperandLocation"@ {
        Some(CallableRepr::Proc)
    } else if a == "CacheIR"@ && b == "setOperandLocation"@ {
        Some(CallableRepr::Proc)
    } else {
        None
    }
}

/// The form that the callable at path `p` always takes, if it is one of the
/// callables implemented by hand in Boogie.
pub open spec fn blocked_repr(p: Seq<Seq<char>>) -> Option<CallableRepr> {
    if p.len() == 1 {
        blocked_repr1(p[0])
    } else if p.len() == 2 {
        blocked_repr2(p[0], p[1])
    } else {
        None
    }
}

/// How a callable is represented: by hand for the callables implemented in
/// Boogie; otherwise as a function exactly when it has a return value, no
/// out-parameter and no body.
pub open spec fn spec_for_callable(
    path: Seq<Seq<char>>,
    param_is_out: Seq<bool>,
    has_ret: bool,
    has_body: bool,
) -> CallableRepr {
    match blocked_repr(path) {
        Some(repr) => repr,
        None => if !param_is_out.contains(true) && has_ret && !has_body {
            CallableRepr::Fn
        } else {
            CallableRepr::Proc
        },
    }
}

/// The form that the callable at the one-segment path `a` always takes.
fn blocked_path_repr1(a: &String) -> (r: Option<CallableRepr>)
    ensures
        r == blocked_repr1(a@),
{
    if *a == String::from_str("ValueReg") {
        Some(CallableRepr::Proc)
    } else if *a == String::from_str("initRegState") {
        Some(CallableRepr::Proc)
    } else if *a == String::from_str("initOperandId") {
        Some(CallableRepr::Proc)
    } else if *a == String::from_str("initInputValueId") {
        Some(CallableRepr::Proc)
    } else if *a == String::from_str("addLiveFloatReg") {
        Some(CallableRepr::Proc)
    } else {
        None
    }
}

/// The form that the callable at the two-segment path `a::b` always takes.
fn blocked_path_repr2(a: &String, b: &String) -> (r: Option<CallableRepr>)
    ensures
        r == blocked_repr2(a@, b@),
{
    if *a == String::from_str("ValueReg") && *b == String::from_str("scratchReg") {
        Some(CallableRepr::Proc)
    } else if *a == String::from_str("GeneralRegSet") && *b == String::from_str("empty") {
        Some(CallableRepr::Proc)
    } else if *a == String::from_str("GeneralRegSet") && *b == String::from_str("volatile") {
        Some(CallableRepr::Proc)
    } else if *a == String::from_str("GeneralRegSet") && *b == String::from_str("intersect") {
        Some(CallableRepr::Proc)
    } else if *a == String::from_str("GeneralRegSet") && *b == String::from_str("difference") {
        Some(CallableRepr::Proc)
    } else if *a == String::from_str("GeneralRegSet") && *b == String::from_str("contains") {
        Some(CallableRepr::Fn)
    } else if *a == String::from_str("GeneralRegSet") && *b == String::from_str("add") {
        Some(CallableRepr::Proc)
    } else if *a == String::from_str("GeneralRegSet") && *b == String::from_str("take") {
        Some(CallableRepr::Proc)
    } else if *a == String::from_str("FloatRegSet") && *b == String::from_str("empty") {
        Some(CallableRepr::Proc)
    } else if *a == String::from_str("FloatRegSet") && *b == String::from_str("volatile") {
        Some(CallableRepr::Proc)
    } else if *a == String::from_str("FloatRegSet") && *b == String::from_str("intersect") {
        Some(CallableRepr::Proc)
    } else if *a == String::from_str("FloatRegSet") && *b == String::from_str("difference") {
        Some(CallableRepr::Proc)
    } else if *a == String::from_str("FloatRegSet") && *b == String::from_str("contains") {
        Some(CallableRepr::Fn)
    } else if *a == String::from_str("FloatRegSet") && *b == String::from_str("add") {
        Some(CallableRepr::Proc)
    } else if *a == String::from_str("FloatRegSet") && *b == String::from_str("take") {
        Some(CallableRepr::Proc)
    } else if *a == String::from_str("MoveResolver") && *b == String::from_str("reset") {
        Some(CallableRepr::Proc)
    } else if *a == String::from_str("MoveResolver") && *b == String::from_str("addRegMove") {
        Some(CallableRepr::Proc)
    } else if *a == String::from_str("MoveResolver") && *b == String::from_str("addFloatMove") {
        Some(CallableRepr::Proc)
    } else if *a == String::from_str("MoveResolver") && *b == String::from_str("resolve") {
        Some(CallableRepr::Proc)
    } else if *a == String::from_str("ABIFunction") && *b == String::from_str("clobberVolatileRegs") {
        Some(CallableRepr::Proc)
    } else if *a == String::from_str("MASM") && *b == String::from_str("getValue") {
        Some(CallableRepr::Proc)
    } else if *a == String::from_str("MASM") && *b == String::from_str("setValue") {
        Some(CallableRepr::Proc)
    } else if *a == String::from_str("MASM") && *b == String::from_str("getData") {
        Some(CallableRepr::Proc)
    } else if *a == String::from_str("MASM") && *b == String::from_str("setData") {
        Some(CallableRepr::Proc)
    } else if *a == String::from_str("MASM") && *b == String::from_str("getFloatData") {
        Some(CallableRepr::Proc)
    } else if *a == String::from_str("MASM") && *b == String::from_str("setFloatData") {
        Some(CallableRepr::Proc)
    } else if *a == String::from_str("MASM") && *b == String::from_str("stackPush") {
        Some(CallableRepr::Proc)
    } else if *a == String::from_str("MASM") && *b == String::from_str("stackPop") {
        Some(CallableRepr::Proc)
    } else if *a == String::from_str("MASM") && *b == String::from_str("stackStore") {
        Some(CallableRepr::Proc)
    } else if *a == String::from_str("MASM") && *b == String::from_str("stackLoad") {
        Some(CallableRepr::Proc)
    } else if *a == String::from_str("MASM") && *b == String::from_str("stackPushLiveGeneralReg") {
        Some(CallableRepr::Proc)
    } else if *a == String::from_str("MASM") && *b == String::from_str("stackPopLiveGeneralReg") {
        Some(CallableRepr::Proc)
    } else if *a == String::from_str("MASM") && *b == String::from_str("stackPushLiveFloatReg") {
        Some(CallableRepr::Proc)
    } else if *a == String::from_str("MASM") && *b == String::from_str("stackPopLiveFloatReg") {
        Some(CallableRepr::Proc)
    } else if *a == String::from_str("CacheIR") && *b == String::from_str("hasAvailableReg") {
        Some(CallableRepr::Proc)
    } else if *a == String::from_str("CacheIR") && *b == String::from_str("isAllocatedValueReg") {
        Some(CallableRepr::Proc)
    } else if *a == String::from_str("CacheIR") && *b == String::from_str("isAllocatedReg") {
        Some(CallableRepr::Proc)
    } else if *a == String::from_str("CacheIR") && *b == String::from_str("allocateValueReg") {
        Some(CallableRepr::Proc)
    } else if *a == String::from_str("CacheIR") && *b == String::from_str("releaseValueReg") {
        Some(CallableRepr::Proc)
    } else if *a == String::from_str("CacheIR") && *b == String::from_str("allocateReg") {
        Some(CallableRepr::Proc)
    } else if *a == String::from_str("CacheIR") && *b == String::from_str("allocateKnownReg") {
        Some(CallableRepr::Proc)
    } else if *a == String::from_str("CacheIR") && *b == String::from_str("releaseReg") {
        Some(CallableRepr::Proc)
    } else if *a == String::from_str("CacheIR") && *b == String::from_str("allocateAvailableFloatRegUnchecked") {
        Some(CallableRepr::Proc)
    } else if *a == String::from_str("CacheIR") && *b == String::from_str("releaseFloatReg") {
        Some(CallableRepr::Proc)
    } else if *a == String::from_str("CacheIR") && *b == String::from_str("defineTypedId") {
        Some(CallableRepr::Proc)
    } else if *a == String::from_str("CacheIR") && *b == String::from_str("defineValueId") {
        Some(CallableRepr::Proc)
    } else if *a == String::from_str("CacheIR") && *b == String::from_str("getOperandLocation") {
        Some(CallableRepr::Proc)
    } else if *a == String::from_str("CacheIR") && *b == String::from_str("setOperandLocation") {
        Some(CallableRepr::Proc)
    } else {
        None
    }
}

/// The form that the callable at `path` always takes, if it is implemented
/// by hand in Boogie.
pub fn blocked_path_repr(path: &Path) -> (r: Option<CallableRepr>)
    ensures
        r == blocked_repr(path@),
{
    let segments = path.segments();
    if segments.len() == 1 {
        blocked_path_repr1(&segments[0].to_string())
    } else if segments.len() == 2 {
        blocked_path_repr2(&segments[0].to_string(), &segments[1].to_string())
    } else {
        None
    }
}

impl CallableRepr {
    /// How the callable at `path` is represented, given for each of its
    /// parameters whether it is an out-parameter, whether it returns a
    /// value, and whether it has a body.
    pub fn for_callable(path: &Path, param_is_out: &Vec<bool>, has_ret: bool, has_body: bool) -> (r:
        CallableRepr)
        ensures
            r == spec_for_callable(path@, param_is_out@, has_ret, has_body),
    {
        if let Some(callable_repr) = blocked_path_repr(path) {
            return callable_repr;
        }
        let mut has_out_params = false;
        let n = param_is_out.len();
        let mut i: usize = 0;
        while i < n
            invariant
                n == param_is_out@.len(),
                i <= n,
                has_out_params == param_is_out@.take(i as int).contains(true),
            decreases n - i,
        {
            if param_is_out[i] {
                has_out_params = true;
            }
            proof {
                let prev = param_is_out@.take(i as int);
                let next = param_is_out@.take(i + 1);
                assert(next =~= prev.push(param_is_out@[i as int]));
                if next.contains(true) && !param_is_out@[i as int] {
                    let k = choose|k: int| 0 <= k < next.len() && #[trigger] next[k] == true;
                    assert(prev[k] == true);
                }
                if prev.contains(true) {
                    let k = choose|k: int| 0 <= k < prev.len() && #[trigger] prev[k] == true;
                    assert(next[k] == true);
                }
                if param_is_out@[i as int] {
                    assert(next[i as int] == true);
                }
            }
            i += 1;
        }
        assert(param_is_out@.take(n as int) =~= param_is_out@);
        if !has_out_params && has_ret && !has_body {
            CallableRepr::Fn
        } else {
            CallableRepr::Proc
        }
    }
}

} // verus!
