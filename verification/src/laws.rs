//! Properties of the generated dispatch method that hold for every `impl`
//! block.
use vstd::prelude::*;
use crate::attr::{parse_tail, TokenSpec};
use crate::handlers::{
    all_handlers, handler_of, spec_idents, items_handlers, method_handlers, plan_of, spec_belongs,
    spec_immutable, HandlerSpec,
};
use crate::handlers::{spec_unit_path, typed_params, ArmSpec};
use crate::model::{AttrSpec, InputSpec, ItemSpec, MethodSpec, SegmentSpec, TypeSpec};
use crate::render::{arm_text, await_text, dispatch_text, join_params};

verus! {

/// Attribute `j` of item `i` is a `#[handle(T)]` whose `T` belongs to enum
/// `e`: the method of item `i` then handles variant `T` of `e`.
pub open spec fn selects(e: TypeSpec, items: Seq<ItemSpec>, i: int, j: int) -> bool {
    &&& 0 <= i < items.len()
    &&& items[i] matches ItemSpec::Method(m)
    &&& 0 <= j < m.attrs.len()
    &&& m.attrs[j] matches AttrSpec::Handle(Some(v))
    &&& spec_belongs(v, e)
}

/// The method of item `i` (meaningful when item `i` is a method).
pub open spec fn method_of(items: Seq<ItemSpec>, i: int) -> MethodSpec {
    match items[i] {
        ItemSpec::Method(m) => m,
        ItemSpec::Other => arbitrary(),
    }
}

/// The type named by attribute `j` of method `m` (meaningful when it is a
/// `#[handle(T)]` with a type).
pub open spec fn handled_type(m: MethodSpec, j: int) -> TypeSpec {
    match m.attrs[j] {
        AttrSpec::Handle(Some(v)) => v,
        _ => arbitrary(),
    }
}

/// The handler that attribute `j` of item `i` gives.
pub open spec fn selected(items: Seq<ItemSpec>, i: int, j: int) -> HandlerSpec {
    handler_of(method_of(items, i), handled_type(method_of(items, i), j))
}

/// Every handler that the first `n` attributes of a method give comes from
/// one of them, and every one of them that names the enum gives a handler.
proof fn lemma_method_handlers(e: TypeSpec, m: MethodSpec, n: int)
    requires
        0 <= n <= m.attrs.len(),
    ensures
        forall|k: int| 0 <= k < method_handlers(e, m, n).len() ==> exists|j: int|
            0 <= j < n && (m.attrs[j] matches AttrSpec::Handle(Some(v)) && spec_belongs(v, e))
                && #[trigger] method_handlers(e, m, n)[k] == handler_of(m, handled_type(m, j)),
        forall|j: int| 0 <= j < n && (#[trigger] m.attrs[j] matches AttrSpec::Handle(Some(v))
            && spec_belongs(v, e)) ==> method_handlers(e, m, n).contains(handler_of(m, handled_type(m, j))),
    decreases n,
{
    if n > 0 {
        lemma_method_handlers(e, m, n - 1);
        let prev = method_handlers(e, m, n - 1);
        let cur = method_handlers(e, m, n);
        assert forall|k: int| 0 <= k < cur.len() implies exists|j: int|
            0 <= j < n && (m.attrs[j] matches AttrSpec::Handle(Some(v)) && spec_belongs(v, e))
                && #[trigger] cur[k] == handler_of(m, handled_type(m, j)) by {
            if k < prev.len() {
                assert(cur[k] == prev[k]);
            } else {
                assert(cur[k] == handler_of(m, handled_type(m, n - 1)));
            }
        }
        assert forall|j: int| 0 <= j < n && (#[trigger] m.attrs[j] matches AttrSpec::Handle(Some(v))
            && spec_belongs(v, e)) implies cur.contains(handler_of(m, handled_type(m, j))) by {
            if j < n - 1 {
                let k = choose|k: int| 0 <= k < prev.len() && prev[k] == handler_of(m, handled_type(m, j));
                assert(cur[k] == prev[k]);
            } else {
                assert(cur[prev.len() as int] == handler_of(m, handled_type(m, j)));
            }
        }
    }
}

/// Every handler among the first `n` items comes from a selecting attribute,
/// and every selecting attribute among them gives a handler.
proof fn lemma_items_handlers(e: TypeSpec, items: Seq<ItemSpec>, n: int)
    requires
        0 <= n <= items.len(),
    ensures
        forall|k: int| 0 <= k < items_handlers(e, items, n).len() ==> exists|i: int, j: int|
            i < n && selects(e, items, i, j) && #[trigger] items_handlers(e, items, n)[k] == selected(items, i, j),
        forall|i: int, j: int| i < n && #[trigger] selects(e, items, i, j)
            ==> items_handlers(e, items, n).contains(selected(items, i, j)),
    decreases n,
{
    if n > 0 {
        lemma_items_handlers(e, items, n - 1);
        let prev = items_handlers(e, items, n - 1);
        let cur = items_handlers(e, items, n);
        match items[n - 1] {
            ItemSpec::Method(m) => {
                lemma_method_handlers(e, m, m.attrs.len() as int);
                let mh = method_handlers(e, m, m.attrs.len() as int);
                assert(cur == prev + mh);
                assert forall|k: int| 0 <= k < cur.len() implies exists|i: int, j: int|
                    i < n && selects(e, items, i, j) && #[trigger] cur[k] == selected(items, i, j) by {
                    if k < prev.len() {
                        assert(cur[k] == prev[k]);
                    } else {
                        assert(cur[k] == mh[k - prev.len()]);
                        let j = choose|j: int| 0 <= j < m.attrs.len() && (m.attrs[j] matches AttrSpec::Handle(Some(v))
                            && spec_belongs(v, e)) && #[trigger] mh[k - prev.len()] == handler_of(m, handled_type(m, j));
                        assert(selects(e, items, n - 1, j));
                        assert(cur[k] == selected(items, n - 1, j));
                    }
                }
                assert forall|i: int, j: int| i < n && #[trigger] selects(e, items, i, j)
                    implies cur.contains(selected(items, i, j)) by {
                    if i < n - 1 {
                        let k = choose|k: int| 0 <= k < prev.len() && prev[k] == selected(items, i, j);
                        assert(cur[k] == prev[k]);
                    } else {
                        assert(m.attrs[j] matches AttrSpec::Handle(Some(v)) && spec_belongs(v, e));
                        let k = choose|k: int| 0 <= k < mh.len() && mh[k] == handler_of(m, handled_type(m, j));
                        assert(cur[prev.len() + k] == mh[k]);
                    }
                }
            },
            ItemSpec::Other => {
                assert forall|i: int, j: int| i < n && #[trigger] selects(e, items, i, j)
                    implies cur.contains(selected(items, i, j)) by {
                    assert(i < n - 1);
                }
            },
        }
    }
}

/// Each dispatch method handles only variants of its own enum: every arm's
/// variant is a variant of the enum, so no arm of it belongs to an enum with
/// another path.
pub proof fn law_only_own_enum(e: TypeSpec, other: TypeSpec, items: Seq<ItemSpec>)
    ensures
        forall|k: int| 0 <= k < plan_of(e, items).arms.len()
            ==> spec_belongs(#[trigger] plan_of(e, items).arms[k].variant, e),
        !(e.path is Some && other.path is Some && spec_idents(e.path.unwrap())
            == spec_idents(other.path.unwrap())) ==> forall|k: int| 0 <= k < plan_of(e, items).arms.len()
            ==> !spec_belongs(#[trigger] plan_of(e, items).arms[k].variant, other),
{
    lemma_items_handlers(e, items, items.len() as int);
    let hs = all_handlers(e, items);
    assert forall|k: int| 0 <= k < plan_of(e, items).arms.len()
        implies spec_belongs(#[trigger] plan_of(e, items).arms[k].variant, e) by {
        assert(plan_of(e, items).arms[k].variant == hs[k].variant);
        let (i, j) = choose|i: int, j: int| i < items.len() && selects(e, items, i, j) && #[trigger] hs[k] == selected(items, i, j);
    }
}

/// Every method that carries a `#[handle(T)]` naming the enum is called by
/// the dispatch method: each such attribute gives an arm for it.
pub proof fn law_every_handler_dispatched(e: TypeSpec, items: Seq<ItemSpec>, i: int, j: int)
    requires
        selects(e, items, i, j),
    ensures
        all_handlers(e, items).contains(selected(items, i, j)),
{
    lemma_items_handlers(e, items, items.len() as int);
}

/// The dispatch method takes `&self` exactly when every handler of the enum
/// takes `&self`; when any handler takes `&mut self` (or anything else), it
/// takes `&mut self`.
pub proof fn law_receiver(e: TypeSpec, items: Seq<ItemSpec>)
    ensures
        plan_of(e, items).all_immutable <==> forall|i: int, j: int|
            #[trigger] selects(e, items, i, j) ==> spec_immutable(method_of(items, i)),
{
    lemma_items_handlers(e, items, items.len() as int);
    let hs = all_handlers(e, items);
    if plan_of(e, items).all_immutable {
        assert forall|i: int, j: int| #[trigger] selects(e, items, i, j)
            implies spec_immutable(method_of(items, i)) by {
            let k = choose|k: int| 0 <= k < hs.len() && hs[k] == selected(items, i, j);
            assert(hs[k].immutable);
        }
    }
    if forall|i: int, j: int| #[trigger] selects(e, items, i, j) ==> spec_immutable(method_of(items, i)) {
        assert forall|k: int| 0 <= k < hs.len() implies (#[trigger] hs[k]).immutable by {
            let (i, j) = choose|i: int, j: int| i < items.len() && selects(e, items, i, j) && #[trigger] hs[k] == selected(items, i, j);
        }
    }
}

/// The dispatch method is `async` exactly when some handler of the enum is
/// `async`.
pub proof fn law_async(e: TypeSpec, items: Seq<ItemSpec>)
    ensures
        plan_of(e, items).any_async <==> exists|i: int, j: int|
            #[trigger] selects(e, items, i, j) && method_of(items, i).is_async,
{
    lemma_items_handlers(e, items, items.len() as int);
    let hs = all_handlers(e, items);
    if plan_of(e, items).any_async {
        let k = choose|k: int| 0 <= k < hs.len() && (#[trigger] hs[k]).is_async;
        let (i, j) = choose|i: int, j: int| i < items.len() && selects(e, items, i, j) && #[trigger] hs[k] == selected(items, i, j);
        assert(selects(e, items, i, j) && method_of(items, i).is_async);
    }
    if exists|i: int, j: int| #[trigger] selects(e, items, i, j) && method_of(items, i).is_async {
        let (i, j) = choose|i: int, j: int| #[trigger] selects(e, items, i, j) && method_of(items, i).is_async;
        let k = choose|k: int| 0 <= k < hs.len() && hs[k] == selected(items, i, j);
        assert(hs[k].is_async);
    }
}

/// When every handler of the enum returns the type written `ret`, and there
/// is one, the dispatch method returns that type; with no handler it returns
/// the unit type.
pub proof fn law_return_type(e: TypeSpec, items: Seq<ItemSpec>, ret: Seq<char>)
    ensures
        (exists|i: int, j: int| #[trigger] selects(e, items, i, j))
            && (forall|i: int, j: int| #[trigger] selects(e, items, i, j) ==> method_of(items, i).output == ret)
            ==> plan_of(e, items).return_type == ret,
        (forall|i: int, j: int| !#[trigger] selects(e, items, i, j))
            ==> plan_of(e, items).return_type == Seq::<char>::empty(),
{
    lemma_items_handlers(e, items, items.len() as int);
    let hs = all_handlers(e, items);
    if exists|i: int, j: int| #[trigger] selects(e, items, i, j) {
        let (i0, j0) = choose|i: int, j: int| #[trigger] selects(e, items, i, j);
        assert(hs.contains(selected(items, i0, j0)));
        if forall|i: int, j: int| #[trigger] selects(e, items, i, j) ==> method_of(items, i).output == ret {
            let k = hs.len() - 1;
            let (i, j) = choose|i: int, j: int| i < items.len() && selects(e, items, i, j) && #[trigger] hs[k] == selected(items, i, j);
        }
    }
    if forall|i: int, j: int| !#[trigger] selects(e, items, i, j) {
        if hs.len() > 0 {
            let (i, j) = choose|i: int, j: int| i < items.len() && selects(e, items, i, j) && #[trigger] hs[0] == selected(items, i, j);
        }
    }
}

/// An item that carries no `#[handle(..)]` (such as a dispatch method that an
/// earlier `#[with_enum_handlers]` added) changes neither the plan nor the
/// outcome for any enum: several dispatch methods can be generated on one
/// `impl` block independently.
pub proof fn law_non_handler_item_neutral(e: TypeSpec, items: Seq<ItemSpec>, item: ItemSpec)
    requires
        item matches ItemSpec::Method(m) ==> forall|j: int| 0 <= j < m.attrs.len()
            ==> !(#[trigger] m.attrs[j] is Handle),
    ensures
        plan_of(e, items.push(item)) == plan_of(e, items),
        crate::handlers::first_invalid(items.push(item), (items.len() + 1) as int)
            == crate::handlers::first_invalid(items, items.len() as int),
{
    let all = items.push(item);
    lemma_prefix_handlers(e, items, item, items.len() as int);
    lemma_prefix_invalid(items, item, items.len() as int);
    if let ItemSpec::Method(m) = item {
        lemma_no_handle_attrs(e, m, m.attrs.len() as int);
        assert(method_handlers(e, m, m.attrs.len() as int) =~= Seq::<HandlerSpec>::empty());
        assert(items_handlers(e, all, (items.len() + 1) as int) =~= items_handlers(e, items, items.len() as int));
    }
}

/// A method without `#[handle(..)]` gives no handler and no invalid attribute.
proof fn lemma_no_handle_attrs(e: TypeSpec, m: MethodSpec, n: int)
    requires
        0 <= n <= m.attrs.len(),
        forall|j: int| 0 <= j < m.attrs.len() ==> !(#[trigger] m.attrs[j] is Handle),
    ensures
        method_handlers(e, m, n).len() == 0,
        crate::handlers::first_invalid_attr(m.attrs, n) is None,
    decreases n,
{
    if n > 0 {
        assert(!(m.attrs[n - 1] is Handle));
        lemma_no_handle_attrs(e, m, n - 1);
    }
}

/// Appending an item leaves the handlers of the earlier items unchanged.
proof fn lemma_prefix_handlers(e: TypeSpec, items: Seq<ItemSpec>, item: ItemSpec, n: int)
    requires
        0 <= n <= items.len(),
    ensures
        items_handlers(e, items.push(item), n) == items_handlers(e, items, n),
    decreases n,
{
    if n > 0 {
        lemma_prefix_handlers(e, items, item, n - 1);
        assert(items.push(item)[n - 1] == items[n - 1]);
    }
}

/// Appending an item leaves the invalid attributes of the earlier items
/// unchanged.
proof fn lemma_prefix_invalid(items: Seq<ItemSpec>, item: ItemSpec, n: int)
    requires
        0 <= n <= items.len(),
    ensures
        crate::handlers::first_invalid(items.push(item), n) == crate::handlers::first_invalid(items, n),
    decreases n,
{
    if n > 0 {
        lemma_prefix_invalid(items, item, n - 1);
        assert(items.push(item)[n - 1] == items[n - 1]);
    }
}

/// `dispatch = name` names the generated method `name`, for every name that
/// is an identifier; without it the method is named `dispatch`.
pub proof fn law_dispatch_name(name: Seq<char>)
    ensures
        parse_tail(seq![
            TokenSpec::Punct(','),
            TokenSpec::Ident("dispatch"@),
            TokenSpec::Punct('='),
            TokenSpec::Ident(name),
        ]) == Ok::<Seq<char>, crate::attr::AttrErrorSpec>(name),
        parse_tail(Seq::empty()) == Ok::<Seq<char>, crate::attr::AttrErrorSpec>("dispatch"@),
{
}

/// Whether an input is a typed argument (not the receiver).
pub open spec fn is_typed(i: InputSpec) -> bool {
    i is Typed
}

/// The pattern of a typed argument.
pub open spec fn pattern_of(i: InputSpec) -> Seq<char> {
    match i {
        InputSpec::Typed(p) => p,
        _ => Seq::empty(),
    }
}

/// The argument patterns of a handler are the patterns of all its typed
/// inputs, in the order of the signature, the receiver left out: as many as
/// there are typed inputs.
pub proof fn law_typed_params(inputs: Seq<InputSpec>)
    ensures
        typed_params(inputs, inputs.len() as int) == inputs.filter(|i: InputSpec| is_typed(i)).map_values(
            |i: InputSpec| pattern_of(i),
        ),
        typed_params(inputs, inputs.len() as int).len() == inputs.filter(|i: InputSpec| is_typed(i)).len(),
{
    lemma_typed_params_prefix(inputs, inputs.len() as int);
    assert(inputs.take(inputs.len() as int) =~= inputs);
}

/// `typed_params` over a prefix is the filter over that prefix.
proof fn lemma_typed_params_prefix(inputs: Seq<InputSpec>, n: int)
    requires
        0 <= n <= inputs.len(),
    ensures
        typed_params(inputs, n) == inputs.take(n).filter(|i: InputSpec| is_typed(i)).map_values(
            |i: InputSpec| pattern_of(i),
        ),
    decreases n,
{
    let pred = |i: InputSpec| is_typed(i);
    reveal_with_fuel(Seq::<_>::filter, 1);
    if n == 0 {
        assert(inputs.take(0).filter(pred) =~= Seq::<InputSpec>::empty());
        assert(inputs.take(0).filter(pred).map_values(|i: InputSpec| pattern_of(i)) =~= Seq::<Seq<char>>::empty());
    } else {
        lemma_typed_params_prefix(inputs, n - 1);
        assert(inputs.take(n).drop_last() =~= inputs.take(n - 1));
        assert(inputs.take(n).last() == inputs[n - 1]);
        let prev = inputs.take(n - 1).filter(pred);
        if is_typed(inputs[n - 1]) {
            assert(inputs.take(n).filter(pred) == prev.push(inputs[n - 1]));
            assert(prev.push(inputs[n - 1]).map_values(|i: InputSpec| pattern_of(i))
                =~= prev.map_values(|i: InputSpec| pattern_of(i)).push(pattern_of(inputs[n - 1])));
        } else {
            assert(inputs.take(n).filter(pred) == prev);
        }
    }
}

/// A variant belongs to an enum exactly when its path is the enum's path,
/// identifier by identifier, followed by one more segment; so for an enum
/// path of any length, that path followed by any segment is a variant of it.
pub proof fn law_variant_of_enum(variant: TypeSpec, enum_ty: TypeSpec, ep: Seq<SegmentSpec>, last: SegmentSpec, text: Seq<char>)
    ensures
        spec_belongs(variant, enum_ty) <==> {
            &&& variant.path is Some
            &&& enum_ty.path is Some
            &&& enum_ty.path.unwrap().len() > 0
            &&& variant.path.unwrap().len() == enum_ty.path.unwrap().len() + 1
            &&& forall|k: int| 0 <= k < enum_ty.path.unwrap().len()
                ==> (#[trigger] variant.path.unwrap()[k]).ident == enum_ty.path.unwrap()[k].ident
        },
        ep.len() > 0 ==> spec_belongs(
            TypeSpec { path: Some(ep.push(last)), text },
            TypeSpec { path: Some(ep), text: enum_ty.text },
        ),
{
    if variant.path is Some && enum_ty.path is Some {
        let vp = variant.path.unwrap();
        let es = enum_ty.path.unwrap();
        if vp.len() == es.len() + 1 {
            let a = crate::handlers::spec_idents(vp.drop_last());
            let b = crate::handlers::spec_idents(es);
            if forall|k: int| 0 <= k < es.len() ==> (#[trigger] vp[k]).ident == es[k].ident {
                assert(a =~= b);
            }
            if a == b {
                assert forall|k: int| 0 <= k < es.len() implies (#[trigger] vp[k]).ident == es[k].ident by {
                    assert(a[k] == b[k]);
                }
            }
        }
    }
    if ep.len() > 0 {
        assert(ep.push(last).drop_last() =~= ep);
    }
}

/// In an arm that binds the variant's fields (any arm but that of a path
/// variant without arguments whose handler takes no argument), the handler is
/// called with exactly the patterns the arm binds, in the same order: the
/// argument list equals the binding list, the patterns joined by `, `.
pub proof fn law_arm_passes_bindings(a: ArmSpec)
    requires
        !(spec_unit_path(a.variant) && a.params.len() == 0),
    ensures
        arm_text(a) == a.variant.text + "("@ + join_params(a.params) + ") => return self."@ + a.method
            + "("@ + join_params(a.params) + ")"@ + await_text(a.is_async) + ","@,
{
}

/// The patterns are listed from the first: the first pattern, then `, ` and
/// the rest when there are more.
pub proof fn law_join_params_front(p: Seq<char>, rest: Seq<Seq<char>>)
    ensures
        join_params(seq![p] + rest) == if rest.len() == 0 { p } else { p + ", "@ + join_params(rest) },
    decreases rest.len(),
{
    if rest.len() == 0 {
        assert(seq![p] + rest =~= seq![p]);
    } else {
        let all = seq![p] + rest;
        assert(all.drop_last() =~= seq![p] + rest.drop_last());
        assert(all.last() == rest.last());
        law_join_params_front(p, rest.drop_last());
        if rest.len() == 1 {
            assert(rest.drop_last() =~= Seq::<Seq<char>>::empty());
            assert(seq![p] + rest.drop_last() =~= seq![p]);
        } else {
            assert(join_params(rest) == join_params(rest.drop_last()) + ", "@ + rest.last());
        }
    }
}

/// The header of the generated method for enum `e` over `items`: `pub`,
/// `async ` exactly when some handler of the enum is `async`, the name, the
/// receiver `&self` exactly when every handler of the enum takes `&self`
/// (whatever their asyncness) and `&mut self` otherwise, then `cmd` of the
/// enum type.
pub proof fn law_dispatch_header(name: Seq<char>, enum_text: Seq<char>, e: TypeSpec, items: Seq<ItemSpec>)
    ensures
        ({
            let header = "pub "@
                + (if exists|i: int, j: int| #[trigger] selects(e, items, i, j) && method_of(items, i).is_async {
                    "async "@
                } else {
                    ""@
                }) + "fn "@ + name + "("@
                + (if forall|i: int, j: int| #[trigger] selects(e, items, i, j) ==> spec_immutable(method_of(items, i)) {
                    "&self"@
                } else {
                    "&mut self"@
                }) + ", cmd: "@ + enum_text + ") "@;
            dispatch_text(name, enum_text, plan_of(e, items)).take(header.len() as int) == header
        }),
{
    law_receiver(e, items);
    law_async(e, items);
    let plan = plan_of(e, items);
    let header = "pub "@ + crate::render::async_text(plan.any_async) + "fn "@ + name + "("@
        + crate::render::receiver_text(plan.all_immutable) + ", cmd: "@ + enum_text + ") "@;
    let full = dispatch_text(name, enum_text, plan);
    assert(full =~= header + (plan.return_type + " { match cmd { "@
        + crate::render::arms_text(plan.arms, plan.arms.len() as int) + "} }"@));
    assert(full.take(header.len() as int) =~= header);
}

/// When the attribute and the `impl` block parse, every `#[handle(..)]` has a
/// type argument, and the dispatch method's text is edition-neutral and has a
/// parse, the output is the block with that parse appended, whatever the
/// number of handlers: no error is reported.
pub proof fn law_dispatch_appended(
    attr: proc_macro2::TokenStream,
    input: proc_macro2::TokenStream,
    r: proc_macro2::TokenStream,
    ty: syn::Type,
    rest: proc_macro2::TokenStream,
    name: Seq<char>,
    block: syn::ItemImpl,
)
    requires
        crate::expand::spec_expansion(attr, input, r),
        crate::syntax::spec_leading_type(attr) == Some((ty, rest)),
        parse_tail(crate::expand::spec_tokens_model(crate::syntax::spec_token_trees(rest)))
            == Ok::<Seq<char>, crate::attr::AttrErrorSpec>(name),
        crate::syntax::spec_parse_item_impl(input) == Some(block),
        crate::handlers::first_invalid(
            crate::expand::spec_block_items(block),
            crate::expand::spec_block_items(block).len() as int,
        ) is None,
        crate::syntax::edition_neutral(dispatch_text(
            name,
            crate::expand::spec_type_model(ty).text,
            plan_of(crate::expand::spec_type_model(ty), crate::expand::spec_block_items(block)),
        )),
        exists|item: syn::ImplItem| crate::syntax::spec_is_parse_of(
            item,
            dispatch_text(
                name,
                crate::expand::spec_type_model(ty).text,
                plan_of(crate::expand::spec_type_model(ty), crate::expand::spec_block_items(block)),
            ),
        ),
    ensures
        exists|item: syn::ImplItem, extended: syn::ItemImpl|
            #![trigger crate::expand::spec_appended(block, item, extended)]
            crate::syntax::spec_is_parse_of(
                item,
                dispatch_text(
                    name,
                    crate::expand::spec_type_model(ty).text,
                    plan_of(crate::expand::spec_type_model(ty), crate::expand::spec_block_items(block)),
                ),
            ) && crate::expand::spec_appended(block, item, extended)
                && r == crate::syntax::spec_item_impl_tokens(extended),
{
}

} // verus!
