//! Expansion of `#[with_enum_handlers(..)]` on an `impl` block.
use vstd::prelude::*;
use proc_macro2::{Span, TokenStream, TokenTree};
use syn::{Attribute, ImplItem, ImplItemFn, ItemImpl, Type};
use crate::attr::{
    parse_tail, position_view, tokens_view, AttrError, AttrErrorSpec, EnumHandlersAttr, TokenInfo, TokenSpec,
};
use crate::handlers::{collect_handlers, first_invalid, lemma_first_invalid_bounds, plan_of};
use crate::model::{
    items_view, AttrInfo, AttrSpec, InputInfo, ItemInfo, ItemSpec, MethodInfo, MethodSpec,
    TypeInfo, TypeSpec,
};
use crate::render::{dispatch_text, render_dispatch};
use crate::syntax::{
    attr_error_tokens, attr_path_is_ident, attr_type_arg, call_site, empty_stream,
    error_tokens, error_tokens_at, fn_arg_info, fn_attrs, fn_inputs, fn_is_async, fn_name, fn_output_text,
    impl_item_fn, impl_items, item_impl_tokens, parse_ident, parse_impl_item, parse_item_impl,
    punct_char, push_impl_item, spec_attr_error_tokens, spec_attr_path_is_ident,
    spec_attr_type_arg, spec_error_tokens_at, spec_fn_arg, spec_fn_attrs, spec_fn_inputs,
    spec_fn_is_async, spec_fn_name, spec_fn_output_text, spec_ident_of, spec_impl_item_fn,
    edition_neutral, spec_impl_frame, spec_impl_items, spec_is_parse_of, spec_item_impl_tokens, spec_leading_type,
    spec_parse_item_impl, spec_punct_char, spec_reports_error, spec_token_span, spec_token_trees, spec_tree_stream,
    spec_type_path, spec_type_text, split_leading_type, token_span, token_trees,
    tree_stream, type_path_segments, type_text,
};

verus! {

/// The model of a type: its path segments and its text.
pub open spec fn spec_type_model(ty: Type) -> TypeSpec {
    TypeSpec { path: spec_type_path(ty), text: spec_type_text(ty) }
}

/// The model of an attribute: `#[handle(..)]` with its argument read as a
/// type, or any other attribute.
pub open spec fn spec_attr_model(attr: Attribute) -> AttrSpec {
    if spec_attr_path_is_ident(attr, "handle"@) {
        match spec_attr_type_arg(attr) {
            Some(ty) => AttrSpec::Handle(Some(spec_type_model(ty))),
            None => AttrSpec::Handle(None),
        }
    } else {
        AttrSpec::Other
    }
}

/// The model of a method.
pub open spec fn spec_method_model(method: ImplItemFn) -> MethodSpec {
    MethodSpec {
        name: spec_fn_name(method),
        attrs: spec_fn_attrs(method).map_values(|a: Attribute| spec_attr_model(a)),
        inputs: spec_fn_inputs(method).map_values(|a: syn::FnArg| spec_fn_arg(a)),
        is_async: spec_fn_is_async(method),
        output: spec_fn_output_text(method),
    }
}

/// The model of an `impl` item.
pub open spec fn spec_item_model(item: ImplItem) -> ItemSpec {
    match spec_impl_item_fn(item) {
        Some(method) => ItemSpec::Method(spec_method_model(method)),
        None => ItemSpec::Other,
    }
}

/// The models of the items of an `impl` block, in order.
pub open spec fn spec_block_items(block: ItemImpl) -> Seq<ItemSpec> {
    spec_impl_items(block).map_values(|item: ImplItem| spec_item_model(item))
}

/// Attribute `j` of the method that is item `i` of an `impl` block.
pub open spec fn spec_block_attr(block: ItemImpl, i: int, j: int) -> Attribute {
    spec_fn_attrs(spec_impl_item_fn(spec_impl_items(block)[i]).unwrap())[j]
}

/// The model of a token of the attribute arguments: an identifier when
/// syn's `Ident` parser accepts the token, a punctuation character, or
/// anything else.
pub open spec fn spec_token_model(tree: TokenTree) -> TokenSpec {
    match spec_ident_of(spec_tree_stream(tree)) {
        Some(text) => TokenSpec::Ident(text),
        None => match spec_punct_char(tree) {
            Some(c) => TokenSpec::Punct(c),
            None => TokenSpec::Other,
        },
    }
}

/// The models of the tokens of the attribute arguments.
pub open spec fn spec_tokens_model(trees: Seq<TokenTree>) -> Seq<TokenSpec> {
    trees.map_values(|t: TokenTree| spec_token_model(t))
}

/// The tokens of the error for refused attribute arguments: the message at
/// the offending token, or at the call site for the end of the arguments; for
/// an expected identifier, the error syn's identifier parser reports.
pub open spec fn spec_refusal(trees: Seq<TokenTree>, error: AttrErrorSpec, r: TokenStream) -> bool {
    match error {
        AttrErrorSpec::Refused { at: Some(k), message } => r == spec_error_tokens_at(
            spec_token_span(trees[k]),
            message,
        ),
        AttrErrorSpec::Refused { at: None, message } => exists|s: Span|
            r == #[trigger] spec_error_tokens_at(s, message),
        AttrErrorSpec::NotIdent { .. } => spec_reports_error(r),
    }
}

/// The `impl` block `extended` is `block` with `item` appended: the same
/// attributes, generics, trait and self type, and the items of `block`
/// followed by `item`.
pub open spec fn spec_appended(block: ItemImpl, item: ImplItem, extended: ItemImpl) -> bool {
    &&& spec_impl_items(extended) == spec_impl_items(block).push(item)
    &&& spec_impl_frame(extended) == spec_impl_frame(block)
}

/// What the expansion gives for a parsed `impl` block, the enum type and the
/// dispatch method's name: the error at the first `#[handle(..)]` without a
/// type argument; otherwise the tokens of the block with the item that syn
/// parses from the dispatch method's text appended. Tokens that report an
/// error instead are possible only when syn does not parse that text, or
/// when the text is not edition-neutral.
pub open spec fn spec_block_expansion(block: ItemImpl, enum_ty: TypeSpec, name: Seq<char>, r: TokenStream) -> bool {
    let items = spec_block_items(block);
    match first_invalid(items, items.len() as int) {
        Some((i, j)) => r == spec_attr_error_tokens(
            spec_block_attr(block, i, j),
            "Invalid #[handle(Type)] syntax"@,
        ),
        None => {
            let text = dispatch_text(name, enum_ty.text, plan_of(enum_ty, items));
            let appended = exists|item: ImplItem, extended: ItemImpl|
                #![trigger spec_appended(block, item, extended)]
                spec_is_parse_of(item, text) && spec_appended(block, item, extended)
                    && r == spec_item_impl_tokens(extended);
            if edition_neutral(text) && exists|item: ImplItem| spec_is_parse_of(item, text) {
                appended
            } else {
                appended || spec_reports_error(r)
            }
        },
    }
}

/// What `#[with_enum_handlers(attr)]` on `input` gives (`r`):
/// - when syn reads no type at the front of `attr`, or `input` is not an
///   `impl` block, tokens that report syn's error;
/// - when the tokens after the type are refused, the tokens of the error
///   for that refusal ([`spec_refusal`]);
/// - otherwise what [`spec_block_expansion`] says.
pub open spec fn spec_expansion(attr: TokenStream, input: TokenStream, r: TokenStream) -> bool {
    match spec_leading_type(attr) {
        None => spec_reports_error(r),
        Some((ty, rest)) => match parse_tail(spec_tokens_model(spec_token_trees(rest))) {
            Err(error) => spec_refusal(spec_token_trees(rest), error, r),
            Ok(name) => match spec_parse_item_impl(input) {
                None => spec_reports_error(r),
                Some(block) => spec_block_expansion(block, spec_type_model(ty), name, r),
            },
        },
    }
}

/// The source text of the dispatch method that the attribute asks for over
/// the items of an `impl` block; or the position (item, attribute) of the
/// first `#[handle(..)]` that has no type argument.
pub fn expand_dispatch(attr: &EnumHandlersAttr, items: &Vec<ItemInfo>) -> (r: Result<String, (usize, usize)>)
    ensures
        match first_invalid(items_view(items@), items@.len() as int) {
            Some((i, j)) => r == Err::<String, (usize, usize)>((i as usize, j as usize)),
            None => r matches Ok(text) && text@ == dispatch_text(
                attr.dispatch_name@,
                attr.enum_name@.text,
                plan_of(attr.enum_name@, items_view(items@)),
            ),
        },
{
    let plan = collect_handlers(&attr.enum_name, items)?;
    Ok(render_dispatch(&attr.dispatch_name, &attr.enum_name.text, &plan))
}

/// What the generator reads of a type.
fn type_info(ty: &Type) -> (r: TypeInfo)
    ensures
        r@ == spec_type_model(*ty),
{
    TypeInfo { path: type_path_segments(ty), text: type_text(ty) }
}

/// What the generator reads of an attribute: for `#[handle(..)]`, its
/// argument parsed as a type.
fn attr_info(attr: &Attribute) -> (r: AttrInfo)
    ensures
        r@ == spec_attr_model(*attr),
{
    if attr_path_is_ident(attr, "handle") {
        match attr_type_arg(attr) {
            Some(ty) => AttrInfo::Handle(Some(type_info(&ty))),
            None => AttrInfo::Handle(None),
        }
    } else {
        AttrInfo::Other
    }
}

/// What the generator reads of a method, with references to its attributes
/// in the order of the model's.
fn method_info<'a>(method: &'a ImplItemFn) -> (r: (MethodInfo, Vec<&'a Attribute>))
    ensures
        r.0@ == spec_method_model(*method),
        r.1@.len() == spec_fn_attrs(*method).len(),
        forall|j: int| 0 <= j < r.1@.len() ==> *(#[trigger] r.1@[j]) == spec_fn_attrs(*method)[j],
{
    let attr_refs = fn_attrs(method);
    let ghost attr_specs = spec_fn_attrs(*method);
    let mut attrs: Vec<AttrInfo> = Vec::new();
    let mut k: usize = 0;
    while k < attr_refs.len()
        invariant
            k <= attr_refs.len(),
            attr_refs@.len() == attr_specs.len(),
            forall|j: int| 0 <= j < attr_refs@.len() ==> *(#[trigger] attr_refs@[j]) == attr_specs[j],
            attrs.len() == k,
            forall|j: int| 0 <= j < k ==> (#[trigger] attrs@[j])@ == spec_attr_model(attr_specs[j]),
        decreases attr_refs.len() - k,
    {
        assert(*attr_refs@[k as int] == attr_specs[k as int]);
        attrs.push(attr_info(attr_refs[k]));
        k = k + 1;
    }
    let input_refs = fn_inputs(method);
    let ghost input_specs = spec_fn_inputs(*method);
    let mut inputs: Vec<InputInfo> = Vec::new();
    let mut k: usize = 0;
    while k < input_refs.len()
        invariant
            k <= input_refs.len(),
            input_refs@.len() == input_specs.len(),
            forall|j: int| 0 <= j < input_refs@.len() ==> *(#[trigger] input_refs@[j]) == input_specs[j],
            inputs.len() == k,
            forall|j: int| 0 <= j < k ==> (#[trigger] inputs@[j])@ == spec_fn_arg(input_specs[j]),
        decreases input_refs.len() - k,
    {
        assert(*input_refs@[k as int] == input_specs[k as int]);
        inputs.push(fn_arg_info(input_refs[k]));
        k = k + 1;
    }
    let info = MethodInfo {
        name: fn_name(method),
        attrs,
        inputs,
        is_async: fn_is_async(method),
        output: fn_output_text(method),
    };
    assert(info@.attrs =~= attr_specs.map_values(|a: Attribute| spec_attr_model(a)));
    assert(info@.inputs =~= input_specs.map_values(|a: syn::FnArg| spec_fn_arg(a)));
    (info, attr_refs)
}

/// What the generator reads of the items of an `impl` block, with references
/// to the attributes of each method.
fn impl_info<'a>(block: &'a ItemImpl) -> (r: (Vec<ItemInfo>, Vec<Vec<&'a Attribute>>))
    ensures
        items_view(r.0@) == spec_block_items(*block),
        r.1@.len() == r.0@.len(),
        forall|i: int| 0 <= i < r.1@.len() ==> (#[trigger] spec_impl_item_fn(spec_impl_items(*block)[i])
            matches Some(m) ==> r.1@[i]@.len() == spec_fn_attrs(m).len() && forall|j: int|
            0 <= j < r.1@[i]@.len() ==> *(#[trigger] r.1@[i]@[j]) == spec_fn_attrs(m)[j]),
{
    let item_refs = impl_items(block);
    let ghost item_specs = spec_impl_items(*block);
    let mut items: Vec<ItemInfo> = Vec::new();
    let mut attrs: Vec<Vec<&'a Attribute>> = Vec::new();
    let mut k: usize = 0;
    while k < item_refs.len()
        invariant
            k <= item_refs.len(),
            item_refs@.len() == item_specs.len(),
            item_specs == spec_impl_items(*block),
            forall|i: int| 0 <= i < item_refs@.len() ==> *(#[trigger] item_refs@[i]) == item_specs[i],
            items.len() == k,
            attrs.len() == k,
            forall|i: int| 0 <= i < k ==> (#[trigger] items@[i])@ == spec_item_model(item_specs[i]),
            forall|i: int| 0 <= i < k ==> (#[trigger] spec_impl_item_fn(item_specs[i])
                matches Some(m) ==> attrs@[i]@.len() == spec_fn_attrs(m).len() && forall|j: int|
                0 <= j < attrs@[i]@.len() ==> *(#[trigger] attrs@[i]@[j]) == spec_fn_attrs(m)[j]),
        decreases item_refs.len() - k,
    {
        assert(*item_refs@[k as int] == item_specs[k as int]);
        match impl_item_fn(item_refs[k]) {
            Some(method) => {
                let (info, refs) = method_info(method);
                items.push(ItemInfo::Method(info));
                attrs.push(refs);
            },
            None => {
                items.push(ItemInfo::Other);
                attrs.push(Vec::new());
            },
        }
        k = k + 1;
    }
    assert(items_view(items@) =~= spec_block_items(*block));
    (items, attrs)
}

/// What the generator reads of one token of the attribute arguments.
fn token_model(tree: &TokenTree) -> (r: TokenInfo)
    ensures
        r@ == spec_token_model(*tree),
{
    match parse_ident(tree_stream(tree)) {
        Ok(text) => TokenInfo::Ident(text),
        Err(_) => match punct_char(tree) {
            Some(c) => TokenInfo::Punct(c),
            None => TokenInfo::Other,
        },
    }
}

/// What the generator reads of the tokens of the attribute arguments.
fn token_infos(trees: &Vec<TokenTree>) -> (r: Vec<TokenInfo>)
    ensures
        tokens_view(r@) == spec_tokens_model(trees@),
{
    let mut r: Vec<TokenInfo> = Vec::new();
    let mut k: usize = 0;
    while k < trees.len()
        invariant
            k <= trees.len(),
            r.len() == k,
            forall|i: int| 0 <= i < k ==> (#[trigger] r@[i])@ == spec_token_model(trees@[i]),
        decreases trees.len() - k,
    {
        r.push(token_model(&trees[k]));
        k = k + 1;
    }
    assert(tokens_view(r@) =~= spec_tokens_model(trees@));
    r
}

/// The position of a refused attribute token lies among the tokens.
proof fn lemma_attr_error_position(t: Seq<TokenSpec>)
    requires
        parse_tail(t) is Err,
    ensures
        parse_tail(t) matches Err(AttrErrorSpec::Refused { at: Some(k), .. }) ==> 0 <= k < t.len(),
        parse_tail(t) matches Err(AttrErrorSpec::NotIdent { at: Some(k) }) ==> 0 <= k < t.len()
            && !(t[k] is Ident),
{
}

/// Marks a method as a handler for a specific enum variant. The attribute
/// itself does nothing: it is read by `with_enum_handlers`.
pub fn handle(_attr: TokenStream, input: TokenStream) -> (r: TokenStream)
    ensures
        r == input,
{
    input
}

/// Generates a dispatch method that routes the variants of an enum to their
/// handlers and adds it to the `impl` block.
///
/// `attr` is `EnumType` or `EnumType, dispatch = name`; `input` is the
/// `impl` block. Every method of the block that carries `#[handle(T)]`, where
/// `T` is a variant of `EnumType`, handles variant `T`; the
/// generated method (named `dispatch` unless renamed) matches on its argument
/// and returns what the handler returns. On a refused attribute, an `impl`
/// block that does not parse, or a `#[handle(..)]` without a type argument,
/// the result is tokens that report the error. The method is appended as the
/// item that syn parses from the text that `dispatch_text` gives; its spans
/// are the call site's.
pub fn with_enum_handlers(attr: TokenStream, input: TokenStream) -> (r: TokenStream)
    ensures
        spec_expansion(attr, input, r),
{
    let (enum_type, rest) = match split_leading_type(attr) {
        Ok(parts) => parts,
        Err(e) => {
            return error_tokens(e);
        },
    };
    let trees = token_trees(rest);
    let tokens = token_infos(&trees);
    let parsed = match EnumHandlersAttr::parse(type_info(&enum_type), &tokens) {
        Ok(a) => a,
        Err(AttrError::Refused { at, message }) => {
            proof {
                lemma_attr_error_position(tokens_view(tokens@));
            }
            let span = match at {
                Some(k) => token_span(&trees[k]),
                None => call_site(),
            };
            let r = error_tokens_at(span, message.as_str());
            proof {
                let t = spec_tokens_model(spec_token_trees(rest));
                assert(parse_tail(t) == Err::<Seq<char>, AttrErrorSpec>(
                    AttrErrorSpec::Refused { at: position_view(at), message: message@ },
                ));
                assert(spec_leading_type(attr) == Some((enum_type, rest)));
                let err = AttrErrorSpec::Refused { at: position_view(at), message: message@ };
                match at {
                    Some(k) => {
                        assert(r == spec_error_tokens_at(spec_token_span(spec_token_trees(rest)[k as int]), message@));
                    },
                    None => {
                        assert(r == spec_error_tokens_at(span, message@));
                        assert(err matches AttrErrorSpec::Refused { at: None, message: m } && m == message@);
                        assert(exists|s: Span| r == #[trigger] spec_error_tokens_at(s, message@));
                    },
                }
                assert(spec_refusal(spec_token_trees(rest), err, r));
            }
            return r;
        },
        Err(AttrError::NotIdent { at }) => {
            proof {
                lemma_attr_error_position(tokens_view(tokens@));
            }
            let stream = match at {
                Some(k) => {
                    assert(tokens_view(tokens@)[k as int] == spec_token_model(trees@[k as int]));
                    tree_stream(&trees[k])
                },
                None => empty_stream(),
            };
            match parse_ident(stream) {
                Ok(_) => {
                    proof {
                        assert(false);
                    }
                    return empty_stream();
                },
                Err(e) => {
                    return error_tokens(e);
                },
            }
        },
    };
    let mut block = match parse_item_impl(input) {
        Ok(b) => b,
        Err(e) => {
            return error_tokens(e);
        },
    };
    let ghost block0 = block;
    let ghost items0 = spec_block_items(block);
    let text = {
        let (items, attr_refs) = impl_info(&block);
        match expand_dispatch(&parsed, &items) {
            Ok(text) => text,
            Err((i, j)) => {
                proof {
                    lemma_first_invalid_bounds(items_view(items@), items@.len() as int);
                    assert(items_view(items@).len() == items@.len());
                    assert(spec_block_items(block).len() == spec_impl_items(block).len());
                    assert(0 <= i < spec_impl_items(block).len());
                    assert(items_view(items@)[i as int] == spec_block_items(block)[i as int]);
                    assert(spec_block_items(block)[i as int] == spec_item_model(spec_impl_items(block)[i as int]));
                    let m = spec_impl_item_fn(spec_impl_items(block)[i as int]).unwrap();
                    assert(spec_impl_item_fn(spec_impl_items(block)[i as int]) == Some(m));
                    assert(attr_refs@[i as int]@.len() == spec_fn_attrs(m).len());
                }
                return attr_error_tokens(attr_refs[i][j], "Invalid #[handle(Type)] syntax");
            },
        }
    };
    match parse_impl_item(text.as_str()) {
        Ok(item) => {
            let ghost parsed_item = item;
            push_impl_item(&mut block, item);
            let r = item_impl_tokens(&block);
            proof {
                assert(spec_appended(block0, parsed_item, block));
            }
            r
        },
        Err(e) => error_tokens(e),
    }
}

} // verus!
