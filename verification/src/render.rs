//! Source text of the generated dispatch method.
use vstd::prelude::*;
use crate::handlers::{is_unit_path_variant, spec_unit_path, ArmSpec, DispatchPlan, HandlerArm, PlanSpec};

verus! {

/// The patterns joined by `", "`.
pub open spec fn join_params(ps: Seq<Seq<char>>) -> Seq<char>
    decreases ps.len(),
{
    if ps.len() == 0 {
        Seq::empty()
    } else if ps.len() == 1 {
        ps[0]
    } else {
        join_params(ps.drop_last()) + ", "@ + ps.last()
    }
}

/// `.await` after the call of an async handler, nothing otherwise.
pub open spec fn await_text(is_async: bool) -> Seq<char> {
    if is_async { ".await"@ } else { ""@ }
}

/// The text of one match arm: `V => return self.m(),` for a path variant
/// without arguments whose handler takes no argument, `V(p, q) => return self.m(p, q),`
/// otherwise, with `.await` after the call of an async handler.
pub open spec fn arm_text(a: ArmSpec) -> Seq<char> {
    if spec_unit_path(a.variant) && a.params.len() == 0 {
        a.variant.text + " => return self."@ + a.method + "()"@ + await_text(a.is_async) + ","@
    } else {
        a.variant.text + "("@ + join_params(a.params) + ") => return self."@ + a.method + "("@
            + join_params(a.params) + ")"@ + await_text(a.is_async) + ","@
    }
}

/// The text of the first `n` arms, each followed by a space.
pub open spec fn arms_text(arms: Seq<ArmSpec>, n: int) -> Seq<char>
    decreases n,
{
    if n <= 0 {
        Seq::empty()
    } else {
        arms_text(arms, n - 1) + arm_text(arms[n - 1]) + " "@
    }
}

/// `async ` when some handler is async, nothing otherwise.
pub open spec fn async_text(any_async: bool) -> Seq<char> {
    if any_async { "async "@ } else { ""@ }
}

/// `&self` when every handler takes `&self`, `&mut self` otherwise.
pub open spec fn receiver_text(all_immutable: bool) -> Seq<char> {
    if all_immutable { "&self"@ } else { "&mut self"@ }
}

/// The whole dispatch method:
/// `pub [async ]fn NAME(RECEIVER, cmd: ENUM) RET { match cmd { ARMS} }`.
pub open spec fn dispatch_text(name: Seq<char>, enum_text: Seq<char>, plan: PlanSpec) -> Seq<char> {
    "pub "@ + async_text(plan.any_async) + "fn "@ + name + "("@ + receiver_text(plan.all_immutable)
        + ", cmd: "@ + enum_text + ") "@ + plan.return_type + " { match cmd { "@
        + arms_text(plan.arms, plan.arms.len() as int) + "} }"@
}

/// Appends the patterns joined by `", "` to `out`.
fn push_params(out: &mut String, params: &Vec<String>)
    ensures
        final(out)@ == old(out)@ + join_params(params.deep_view()),
{
    let ghost start = out@;
    let mut k: usize = 0;
    while k < params.len()
        invariant
            k <= params.len(),
            out@ == start + join_params(params.deep_view().take(k as int)),
        decreases params.len() - k,
    {
        let ghost pv = params.deep_view();
        proof {
            assert(pv.take(k + 1).drop_last() =~= pv.take(k as int));
            assert(pv.take(k + 1).last() == params@[k as int]@);
            if k == 0 {
                assert(pv.take(0) =~= Seq::<Seq<char>>::empty());
                assert(pv.take(1) =~= seq![params@[0]@]);
            }
        }
        if k > 0 {
            out.append(", ");
        }
        out.append(params[k].as_str());
        proof {
            if k > 0 {
                assert(out@ =~= start + join_params(pv.take(k + 1)));
            } else {
                assert(out@ =~= start + join_params(pv.take(1)));
            }
        }
        k = k + 1;
    }
    assert(params.deep_view().take(params.len() as int) =~= params.deep_view());
}

/// Appends the text of one match arm to `out`.
fn push_arm(out: &mut String, arm: &HandlerArm)
    ensures
        final(out)@ == old(out)@ + arm_text(arm@),
{
    let ghost start = out@;
    out.append(arm.variant.text.as_str());
    if is_unit_path_variant(&arm.variant) && arm.params.len() == 0 {
        out.append(" => return self.");
        out.append(arm.method.as_str());
        out.append("()");
    } else {
        out.append("(");
        push_params(out, &arm.params);
        out.append(") => return self.");
        out.append(arm.method.as_str());
        out.append("(");
        push_params(out, &arm.params);
        out.append(")");
    }
    if arm.is_async {
        out.append(".await");
    } else {
        out.append("");
    }
    out.append(",");
    assert(out@ =~= start + arm_text(arm@));
}

/// The source text of the dispatch method named `dispatch_name` that matches
/// a value of the enum whose type text is `enum_text` along `plan`.
pub fn render_dispatch(dispatch_name: &String, enum_text: &String, plan: &DispatchPlan) -> (r: String)
    ensures
        r@ == dispatch_text(dispatch_name@, enum_text@, plan@),
{
    let mut out = String::new();
    out.append("pub ");
    if plan.any_async {
        out.append("async ");
    } else {
        out.append("");
    }
    out.append("fn ");
    out.append(dispatch_name.as_str());
    out.append("(");
    if plan.all_immutable {
        out.append("&self");
    } else {
        out.append("&mut self");
    }
    out.append(", cmd: ");
    out.append(enum_text.as_str());
    out.append(") ");
    out.append(plan.return_type.as_str());
    out.append(" { match cmd { ");
    let ghost head = out@;
    let ghost av = plan@.arms;
    let mut k: usize = 0;
    while k < plan.arms.len()
        invariant
            k <= plan.arms.len(),
            av == plan@.arms,
            out@ == head + arms_text(av, k as int),
        decreases plan.arms.len() - k,
    {
        push_arm(&mut out, &plan.arms[k]);
        out.append(" ");
        assert(out@ =~= head + arms_text(av, k + 1));
        k = k + 1;
    }
    out.append("} }");
    assert(out@ =~= dispatch_text(dispatch_name@, enum_text@, plan@));
    out
}

} // verus!
