//! Selection of the handler methods of an `impl` block that belong to one enum.
use vstd::prelude::*;
use crate::model::{
    copy_strings, items_view, segments_view, SegmentInfo, SegmentSpec, AttrInfo, AttrSpec, InputInfo, InputSpec, ItemInfo, ItemSpec,
    MethodInfo, MethodSpec, TypeInfo, TypeSpec,
};

verus! {

/// The first path segment of a type, if it is a path type with a segment.
pub open spec fn spec_root(t: TypeSpec) -> Option<Seq<char>> {
    match t.path {
        Some(segments) => if segments.len() > 0 { Some(segments[0].ident) } else { None },
        None => None,
    }
}

/// Whether a type is a path whose last segment (the variant) carries no
/// arguments (such as `Message::Get` or `E::<T>::V`, unlike
/// `Message::Inc(isize)`).
pub open spec fn spec_unit_path(t: TypeSpec) -> bool {
    &&& t.path is Some
    &&& (t.path.unwrap().len() == 0 || !t.path.unwrap().last().has_args)
}

/// Check if a type is a path variant (e.g., `Message::Get`) with no
/// arguments, so that it can be matched without parentheses.
pub fn is_unit_path_variant(ty: &TypeInfo) -> (r: bool)
    ensures
        r == spec_unit_path(ty@),
{
    match &ty.path {
        Some(segments) => {
            if segments.len() == 0 {
                true
            } else {
                let last = segments.len() - 1;
                assert(ty@.path.unwrap().last() == segments@[last as int]@);
                !segments[last].has_args
            }
        },
        None => false,
    }
}

/// The root identifier of a path type (`ApiMessage` of `ApiMessage::Inc`).
pub fn get_type_root_ident(ty: &TypeInfo) -> (r: Option<&String>)
    ensures
        match r {
            Some(s) => spec_root(ty@) == Some(s@),
            None => spec_root(ty@) is None,
        },
{
    match &ty.path {
        Some(segments) => {
            if segments.len() > 0 {
                assert(ty@.path.unwrap()[0] == segments@[0]@);
                Some(&segments[0].ident)
            } else {
                None
            }
        },
        None => None,
    }
}


/// The identifiers of a list of path segments.
pub open spec fn spec_idents(segments: Seq<SegmentSpec>) -> Seq<Seq<char>> {
    segments.map_values(|s: SegmentSpec| s.ident)
}

/// Whether a handler's variant type belongs to the enum type: the variant's
/// path is the enum's path (compared by identifiers) followed by one more
/// segment, the variant's name.
pub open spec fn spec_belongs(variant: TypeSpec, enum_ty: TypeSpec) -> bool {
    match (variant.path, enum_ty.path) {
        (Some(vp), Some(ep)) => {
            &&& ep.len() > 0
            &&& vp.len() == ep.len() + 1
            &&& spec_idents(vp.drop_last()) == spec_idents(ep)
        },
        _ => false,
    }
}

/// Check if a handler's variant type belongs to the specified enum: the
/// variant's path must be the enum's path followed by the variant's name.
pub fn handler_belongs_to_enum(variant_type: &TypeInfo, enum_type: &TypeInfo) -> (r: bool)
    ensures
        r == spec_belongs(variant_type@, enum_type@),
{
    match (&variant_type.path, &enum_type.path) {
        (Some(vp), Some(ep)) => {
            if ep.len() == 0 || vp.len() == 0 || vp.len() - 1 != ep.len() {
                return false;
            }
            let ghost vs = variant_type@.path.unwrap();
            let ghost es = enum_type@.path.unwrap();
            let mut k: usize = 0;
            while k < ep.len()
                invariant
                    k <= ep.len(),
                    vp.len() == ep.len() + 1,
                    vs == segments_view(vp@),
                    es == segments_view(ep@),
                    variant_type@.path == Some(vs),
                    enum_type@.path == Some(es),
                    forall|i: int| 0 <= i < k ==> (#[trigger] vs[i]).ident == es[i].ident,
                decreases ep.len() - k,
            {
                assert(vs[k as int] == vp@[k as int]@ && es[k as int] == ep@[k as int]@);
                if !(vp[k].ident == ep[k].ident) {
                    assert(spec_idents(vs.drop_last())[k as int] != spec_idents(es)[k as int]);
                    return false;
                }
                k = k + 1;
            }
            assert(spec_idents(vs.drop_last()) =~= spec_idents(es));
            true
        },
        _ => false,
    }
}

/// Whether a method takes `&self` (a reference receiver without `mut`) as its
/// first input.
pub open spec fn spec_immutable(m: MethodSpec) -> bool {
    &&& m.inputs.len() > 0
    &&& m.inputs[0] matches InputSpec::Receiver { reference, mutable }
    &&& reference
    &&& !mutable
}

/// Check if a handler uses immutable self (`&self`) rather than `&mut self`.
pub fn is_immutable_handler(method: &MethodInfo) -> (r: bool)
    ensures
        r == spec_immutable(method@),
{
    if method.inputs.len() > 0 {
        match &method.inputs[0] {
            InputInfo::Receiver { reference, mutable } => *reference && !*mutable,
            InputInfo::Typed(_) => false,
        }
    } else {
        false
    }
}


/// A handler selected for the enum: the variant it handles and what the
/// dispatch method needs of the handling method.
pub ghost struct HandlerSpec {
    pub variant: TypeSpec,
    pub method: Seq<char>,
    pub params: Seq<Seq<char>>,
    pub is_async: bool,
    pub immutable: bool,
    pub output: Seq<char>,
}

/// The patterns of the first `n` inputs of a method that are typed
/// arguments (the receiver left out), in order.
pub open spec fn typed_params(inputs: Seq<InputSpec>, n: int) -> Seq<Seq<char>>
    decreases n,
{
    if n <= 0 {
        Seq::empty()
    } else {
        let prev = typed_params(inputs, n - 1);
        match inputs[n - 1] {
            InputSpec::Typed(pat) => prev.push(pat),
            InputSpec::Receiver { .. } => prev,
        }
    }
}

/// The handler that method `m` gives for variant `v`.
pub open spec fn handler_of(m: MethodSpec, v: TypeSpec) -> HandlerSpec {
    HandlerSpec {
        variant: v,
        method: m.name,
        params: typed_params(m.inputs, m.inputs.len() as int),
        is_async: m.is_async,
        immutable: spec_immutable(m),
        output: m.output,
    }
}

/// The handlers for enum `e` given by the first `n` attributes of method `m`:
/// one for each `#[handle(T)]` whose `T` belongs to `e`, in order.
pub open spec fn method_handlers(e: TypeSpec, m: MethodSpec, n: int) -> Seq<HandlerSpec>
    decreases n,
{
    if n <= 0 {
        Seq::empty()
    } else {
        let prev = method_handlers(e, m, n - 1);
        match m.attrs[n - 1] {
            AttrSpec::Handle(Some(v)) => if spec_belongs(v, e) {
                prev.push(handler_of(m, v))
            } else {
                prev
            },
            _ => prev,
        }
    }
}

/// The handlers for enum `e` given by the first `n` items, in order.
pub open spec fn items_handlers(e: TypeSpec, items: Seq<ItemSpec>, n: int) -> Seq<HandlerSpec>
    decreases n,
{
    if n <= 0 {
        Seq::empty()
    } else {
        let prev = items_handlers(e, items, n - 1);
        match items[n - 1] {
            ItemSpec::Method(m) => prev + method_handlers(e, m, m.attrs.len() as int),
            ItemSpec::Other => prev,
        }
    }
}

/// The position of the first `#[handle(..)]` among the first `n` attributes
/// whose argument is not a type.
pub open spec fn first_invalid_attr(attrs: Seq<AttrSpec>, n: int) -> Option<int>
    decreases n,
{
    if n <= 0 {
        None
    } else {
        match first_invalid_attr(attrs, n - 1) {
            Some(j) => Some(j),
            None => if attrs[n - 1] == AttrSpec::Handle(None) {
                Some(n - 1)
            } else {
                None
            },
        }
    }
}

/// The position (item, attribute) of the first `#[handle(..)]` among the
/// methods of the first `n` items whose argument is not a type.
pub open spec fn first_invalid(items: Seq<ItemSpec>, n: int) -> Option<(int, int)>
    decreases n,
{
    if n <= 0 {
        None
    } else {
        match first_invalid(items, n - 1) {
            Some(p) => Some(p),
            None => match items[n - 1] {
                ItemSpec::Method(m) => match first_invalid_attr(m.attrs, m.attrs.len() as int) {
                    Some(j) => Some((n - 1, j)),
                    None => None,
                },
                ItemSpec::Other => None,
            },
        }
    }
}

/// One arm of the generated `match`.
pub struct HandlerArm {
    /// The variant matched.
    pub variant: TypeInfo,
    /// The name of the method called.
    pub method: String,
    /// The argument patterns bound by the arm and handed to the method.
    pub params: Vec<String>,
    /// Whether the call is awaited.
    pub is_async: bool,
}

/// Mathematical view of a [`HandlerArm`].
pub ghost struct ArmSpec {
    pub variant: TypeSpec,
    pub method: Seq<char>,
    pub params: Seq<Seq<char>>,
    pub is_async: bool,
}

impl View for HandlerArm {
    type V = ArmSpec;

    open spec fn view(&self) -> ArmSpec {
        ArmSpec {
            variant: self.variant@,
            method: self.method@,
            params: self.params.deep_view(),
            is_async: self.is_async,
        }
    }
}

/// The arm that a handler contributes.
pub open spec fn arm_of(h: HandlerSpec) -> ArmSpec {
    ArmSpec { variant: h.variant, method: h.method, params: h.params, is_async: h.is_async }
}

/// Everything that decides the shape of the generated dispatch method.
pub struct DispatchPlan {
    /// The match arms, one per selected handler, in source order.
    pub arms: Vec<HandlerArm>,
    /// Source text of the return type: that of the last selected handler,
    /// empty (the unit type) when there is none.
    pub return_type: String,
    /// Whether any selected handler is `async`.
    pub any_async: bool,
    /// Whether every selected handler takes `&self`.
    pub all_immutable: bool,
}

/// Mathematical view of a [`DispatchPlan`].
pub ghost struct PlanSpec {
    pub arms: Seq<ArmSpec>,
    pub return_type: Seq<char>,
    pub any_async: bool,
    pub all_immutable: bool,
}

impl View for DispatchPlan {
    type V = PlanSpec;

    open spec fn view(&self) -> PlanSpec {
        PlanSpec {
            arms: self.arms@.map_values(|a: HandlerArm| a@),
            return_type: self.return_type@,
            any_async: self.any_async,
            all_immutable: self.all_immutable,
        }
    }
}

/// The return type of the last handler, or the empty text when there is none.
pub open spec fn last_output(hs: Seq<HandlerSpec>) -> Seq<char> {
    if hs.len() == 0 {
        Seq::empty()
    } else {
        hs.last().output
    }
}

/// The plan that a list of handlers gives.
pub open spec fn plan_of_handlers(hs: Seq<HandlerSpec>) -> PlanSpec {
    PlanSpec {
        arms: hs.map_values(|h: HandlerSpec| arm_of(h)),
        return_type: last_output(hs),
        any_async: exists|k: int| 0 <= k < hs.len() && (#[trigger] hs[k]).is_async,
        all_immutable: forall|k: int| 0 <= k < hs.len() ==> (#[trigger] hs[k]).immutable,
    }
}

/// The handlers for enum `e` in a whole list of items.
pub open spec fn all_handlers(e: TypeSpec, items: Seq<ItemSpec>) -> Seq<HandlerSpec> {
    items_handlers(e, items, items.len() as int)
}

/// The dispatch plan for enum `e` over the items of an `impl` block.
pub open spec fn plan_of(e: TypeSpec, items: Seq<ItemSpec>) -> PlanSpec {
    plan_of_handlers(all_handlers(e, items))
}


/// Adding one handler to a list extends its plan by that handler's arm, gives
/// it that handler's return type, and folds in its asyncness and receiver.
proof fn lemma_plan_push(hs: Seq<HandlerSpec>, h: HandlerSpec)
    ensures
        plan_of_handlers(hs.push(h)) == (PlanSpec {
            arms: plan_of_handlers(hs).arms.push(arm_of(h)),
            return_type: h.output,
            any_async: plan_of_handlers(hs).any_async || h.is_async,
            all_immutable: plan_of_handlers(hs).all_immutable && h.immutable,
        }),
{
    let hs2 = hs.push(h);
    assert(hs2.map_values(|x: HandlerSpec| arm_of(x)) =~= hs.map_values(|x: HandlerSpec| arm_of(x)).push(arm_of(h)));
    assert(hs2[hs.len() as int] == h);
    if plan_of_handlers(hs).any_async {
        let k = choose|k: int| 0 <= k < hs.len() && (#[trigger] hs[k]).is_async;
        assert(hs2[k] == hs[k]);
    }
    if plan_of_handlers(hs2).any_async {
        let k = choose|k: int| 0 <= k < hs2.len() && (#[trigger] hs2[k]).is_async;
        if k < hs.len() {
            assert(hs2[k] == hs[k]);
        }
    }
    if plan_of_handlers(hs).all_immutable && h.immutable {
        assert forall|k: int| 0 <= k < hs2.len() implies (#[trigger] hs2[k]).immutable by {
            if k < hs.len() {
                assert(hs2[k] == hs[k]);
            }
        }
    }
    if plan_of_handlers(hs2).all_immutable {
        assert forall|k: int| 0 <= k < hs.len() implies (#[trigger] hs[k]).immutable by {
            assert(hs2[k] == hs[k]);
        }
    }
}

/// Once an invalid attribute is found among the first `n`, it stays the first
/// one among any longer prefix.
proof fn lemma_first_invalid_attr_stable(attrs: Seq<AttrSpec>, n: int, m: int)
    requires
        first_invalid_attr(attrs, n) is Some,
        n <= m,
    ensures
        first_invalid_attr(attrs, m) == first_invalid_attr(attrs, n),
    decreases m - n,
{
    if n < m {
        lemma_first_invalid_attr_stable(attrs, n, m - 1);
    }
}

/// Once an invalid attribute is found among the first `n` items, it stays the
/// first one among any longer prefix.
proof fn lemma_first_invalid_stable(items: Seq<ItemSpec>, n: int, m: int)
    requires
        first_invalid(items, n) is Some,
        n <= m,
    ensures
        first_invalid(items, m) == first_invalid(items, n),
    decreases m - n,
{
    if n < m {
        lemma_first_invalid_stable(items, n, m - 1);
    }
}

/// The patterns of the typed arguments of a method, in order (the receiver is
/// left out).
pub fn typed_param_patterns(inputs: &Vec<InputInfo>) -> (r: Vec<String>)
    ensures
        r.deep_view() == typed_params(inputs@.map_values(|i: InputInfo| i@), inputs@.len() as int),
{
    let ghost iv = inputs@.map_values(|i: InputInfo| i@);
    let mut r: Vec<String> = Vec::new();
    let mut k: usize = 0;
    while k < inputs.len()
        invariant
            k <= inputs.len(),
            iv == inputs@.map_values(|i: InputInfo| i@),
            r.deep_view() == typed_params(iv, k as int),
        decreases inputs.len() - k,
    {
        let ghost before = r.deep_view();
        match &inputs[k] {
            InputInfo::Typed(pat) => {
                r.push(pat.clone());
                assert(r.deep_view() =~= before.push(pat@));
            },
            InputInfo::Receiver { .. } => {},
        }
        k = k + 1;
    }
    r
}

/// Adds to `plan` the handlers for `enum_ty` that the attributes of method
/// `m` give, or reports the position of the first `#[handle(..)]` attribute
/// of `m` whose argument is not a type.
fn collect_method_handlers(
    enum_ty: &TypeInfo,
    m: &MethodInfo,
    plan: &mut DispatchPlan,
    Ghost(prev): Ghost<Seq<HandlerSpec>>,
) -> (r: Result<(), usize>)
    requires
        old(plan)@ == plan_of_handlers(prev),
    ensures
        match first_invalid_attr(m@.attrs, m@.attrs.len() as int) {
            Some(j) => r == Err::<(), usize>(j as usize),
            None => r is Ok && final(plan)@ == plan_of_handlers(
                prev + method_handlers(enum_ty@, m@, m@.attrs.len() as int),
            ),
        },
{
    let params = typed_param_patterns(&m.inputs);
    let immutable = is_immutable_handler(m);
    let ghost mv = m@;
    let mut j: usize = 0;
    while j < m.attrs.len()
        invariant
            j <= m.attrs.len(),
            mv == m@,
            params.deep_view() == typed_params(mv.inputs, mv.inputs.len() as int),
            immutable == spec_immutable(mv),
            first_invalid_attr(mv.attrs, j as int) is None,
            plan@ == plan_of_handlers(prev + method_handlers(enum_ty@, mv, j as int)),
        decreases m.attrs.len() - j,
    {
        assert(m.attrs[j as int]@ == mv.attrs[j as int]);
        let ghost hs = prev + method_handlers(enum_ty@, mv, j as int);
        match &m.attrs[j] {
            AttrInfo::Handle(Some(v)) => {
                if handler_belongs_to_enum(v, enum_ty) {
                    let ghost h = handler_of(mv, v@);
                    let arm = HandlerArm {
                        variant: v.copy(),
                        method: m.name.clone(),
                        params: copy_strings(&params),
                        is_async: m.is_async,
                    };
                    assert(arm@ == arm_of(h));
                    plan.any_async = plan.any_async || m.is_async;
                    plan.all_immutable = plan.all_immutable && immutable;
                    plan.arms.push(arm);
                    plan.return_type = m.output.clone();
                    proof {
                        lemma_plan_push(hs, h);
                        assert(prev + method_handlers(enum_ty@, mv, j + 1) =~= hs.push(h));
                        assert(plan@.arms =~= plan_of_handlers(hs).arms.push(arm_of(h)));
                    }
                }
            },
            AttrInfo::Handle(None) => {
                proof {
                    lemma_first_invalid_attr_stable(mv.attrs, j + 1, mv.attrs.len() as int);
                }
                return Err(j);
            },
            AttrInfo::Other => {},
        }
        j = j + 1;
    }
    Ok(())
}

/// Collects, in source order, the handlers for `enum_ty` among the methods
/// of an `impl` block: every `#[handle(T)]` attribute whose type `T` is
/// a variant of `enum_ty` gives one arm. Fails with the position
/// (item, attribute) of the first `#[handle(..)]` whose argument is not a
/// type, whichever enum the other attributes name.
pub fn collect_handlers(enum_ty: &TypeInfo, items: &Vec<ItemInfo>) -> (r: Result<DispatchPlan, (usize, usize)>)
    ensures
        match first_invalid(items_view(items@), items@.len() as int) {
            Some((i, j)) => r == Err::<DispatchPlan, (usize, usize)>((i as usize, j as usize)),
            None => r matches Ok(p) && p@ == plan_of(enum_ty@, items_view(items@)),
        },
{
    let ghost iv = items_view(items@);
    let mut plan = DispatchPlan {
        arms: Vec::new(),
        return_type: String::new(),
        any_async: false,
        all_immutable: true,
    };
    assert(plan@.arms =~= plan_of_handlers(Seq::empty()).arms);
    let mut i: usize = 0;
    while i < items.len()
        invariant
            i <= items.len(),
            iv == items_view(items@),
            first_invalid(iv, i as int) is None,
            plan@ == plan_of_handlers(items_handlers(enum_ty@, iv, i as int)),
        decreases items.len() - i,
    {
        assert(items[i as int]@ == iv[i as int]);
        match &items[i] {
            ItemInfo::Method(m) => {
                let res = collect_method_handlers(enum_ty, m, &mut plan, Ghost(items_handlers(enum_ty@, iv, i as int)));
                match res {
                    Ok(()) => {},
                    Err(j) => {
                        proof {
                            lemma_first_invalid_stable(iv, i + 1, iv.len() as int);
                        }
                        return Err((i, j));
                    },
                }
            },
            ItemInfo::Other => {},
        }
        i = i + 1;
    }
    Ok(plan)
}


/// The position of the first invalid attribute among the first `n` lies
/// among them.
pub proof fn lemma_first_invalid_attr_bounds(attrs: Seq<AttrSpec>, n: int)
    requires
        n <= attrs.len(),
        first_invalid_attr(attrs, n) is Some,
    ensures
        0 <= first_invalid_attr(attrs, n).unwrap() < n,
        attrs[first_invalid_attr(attrs, n).unwrap()] == AttrSpec::Handle(None),
    decreases n,
{
    if n > 0 && first_invalid_attr(attrs, n - 1) is Some {
        lemma_first_invalid_attr_bounds(attrs, n - 1);
    }
}

/// The position (item, attribute) of the first invalid attribute among the
/// first `n` items names an attribute of a method among them.
pub proof fn lemma_first_invalid_bounds(items: Seq<ItemSpec>, n: int)
    requires
        n <= items.len(),
        first_invalid(items, n) is Some,
    ensures
        0 <= first_invalid(items, n).unwrap().0 < n,
        items[first_invalid(items, n).unwrap().0] matches ItemSpec::Method(m)
            && 0 <= first_invalid(items, n).unwrap().1 < m.attrs.len()
            && m.attrs[first_invalid(items, n).unwrap().1] == AttrSpec::Handle(None),
    decreases n,
{
    if n > 0 {
        if first_invalid(items, n - 1) is Some {
            lemma_first_invalid_bounds(items, n - 1);
        } else {
            if let ItemSpec::Method(m) = items[n - 1] {
                lemma_first_invalid_attr_bounds(m.attrs, m.attrs.len() as int);
            }
        }
    }
}

} // verus!
