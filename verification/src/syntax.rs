//! Trusted access to the Rust syntax trees of `syn` and the token streams of
//! `proc_macro2`. Each item below is believed by the verifier; its doc
//! comment says which outside function it calls and what is claimed of it.
//!
//! The `spec_*` functions without a body name what an outside function gives
//! for given arguments; nothing is claimed of them beyond the contracts here.
//! Results that depend on the macro invocation get no name: those that carry
//! the call-site span (`Span::call_site()`, the errors syn reports at the
//! end of its input, every span of a tree parsed from text) and a
//! `syn::Error` itself, which records the thread that made it and renders
//! its spans only on that thread. An error is therefore named only together
//! with its rendering, made in one wrapper.
use vstd::prelude::*;
use proc_macro2::{Span, TokenStream, TokenTree};
use syn::{Attribute, FnArg, ImplItem, ImplItemFn, ItemImpl, Type};
use crate::model::{segments_view, InputInfo, InputSpec, SegmentInfo, SegmentSpec};

verus! {

/// `proc_macro2::TokenStream`, carried through opaquely.
#[verifier::external_type_specification]
#[verifier::external_body]
pub struct ExTokenStream(proc_macro2::TokenStream);

/// `proc_macro2::TokenTree`, carried through opaquely.
#[verifier::external_type_specification]
#[verifier::external_body]
pub struct ExTokenTree(proc_macro2::TokenTree);

/// `proc_macro2::Span`, carried through opaquely.
#[verifier::external_type_specification]
#[verifier::external_body]
pub struct ExSpan(proc_macro2::Span);

/// `syn::Type`, carried through opaquely.
#[verifier::external_type_specification]
#[verifier::external_body]
pub struct ExType(syn::Type);

/// `syn::ItemImpl`, carried through opaquely.
#[verifier::external_type_specification]
#[verifier::external_body]
pub struct ExItemImpl(syn::ItemImpl);

/// `syn::ImplItem`, carried through opaquely.
#[verifier::external_type_specification]
#[verifier::external_body]
pub struct ExImplItem(syn::ImplItem);

/// `syn::ImplItemFn`, carried through opaquely.
#[verifier::external_type_specification]
#[verifier::external_body]
pub struct ExImplItemFn(syn::ImplItemFn);

/// `syn::Attribute`, carried through opaquely.
#[verifier::external_type_specification]
#[verifier::external_body]
pub struct ExAttribute(syn::Attribute);

/// `syn::FnArg`, carried through opaquely.
#[verifier::external_type_specification]
#[verifier::external_body]
pub struct ExFnArg(syn::FnArg);

/// `syn::Error`, carried through opaquely.
#[verifier::external_type_specification]
#[verifier::external_body]
pub struct ExError(syn::Error);

/// The type that syn's `Type` parser reads at the front of a token stream,
/// with the tokens after it; `None` when the parser refuses the stream.
pub uninterp spec fn spec_leading_type(tokens: TokenStream) -> Option<(Type, TokenStream)>;

/// Parses a type at the front of `tokens` with syn's `Type` parser
/// (`Parser::parse2` running `ParseBuffer::parse::<Type>` and then taking
/// the rest as a `TokenStream`). Claimed: the result is `Ok` of the named
/// pair exactly when the name gives one; syn's error is not named.
#[verifier::external_body]
pub(crate) fn split_leading_type(tokens: TokenStream) -> (r: Result<(Type, TokenStream), syn::Error>)
    ensures
        match spec_leading_type(tokens) {
            Some(parts) => r == Ok::<(Type, TokenStream), syn::Error>(parts),
            None => r is Err,
        },
        spec_token_trees(tokens).len() == 0 ==> r is Err,
{
    let parser = |input: syn::parse::ParseStream| -> syn::Result<(Type, TokenStream)> {
        Ok((input.parse()?, input.parse()?))
    };
    syn::parse::Parser::parse2(parser, tokens)
}

/// The token trees of a stream, in order.
pub uninterp spec fn spec_token_trees(tokens: TokenStream) -> Seq<TokenTree>;

/// The token trees of a stream (`IntoIterator for TokenStream`), as named.
#[verifier::external_body]
pub(crate) fn token_trees(tokens: TokenStream) -> (r: Vec<TokenTree>)
    ensures
        r@ == spec_token_trees(tokens),
{
    tokens.into_iter().collect()
}

/// `TokenStream::new()`: the empty stream, which has no token tree.
#[verifier::external_body]
pub(crate) fn empty_stream() -> (r: TokenStream)
    ensures
        spec_token_trees(r).len() == 0,
{
    TokenStream::new()
}

/// The stream made of one token tree.
pub uninterp spec fn spec_tree_stream(tree: TokenTree) -> TokenStream;

/// `TokenStream::from(TokenTree)`, as named.
#[verifier::external_body]
pub(crate) fn tree_stream(tree: &TokenTree) -> (r: TokenStream)
    ensures
        r == spec_tree_stream(*tree),
{
    TokenStream::from(tree.clone())
}

/// The identifier that syn's `Ident` parser reads from a whole stream, by
/// its text; `None` when the parser refuses the stream.
pub uninterp spec fn spec_ident_of(tokens: TokenStream) -> Option<Seq<char>>;

/// `syn::parse2::<syn::Ident>` with the identifier's text
/// (`Ident::to_string`). Claimed: it succeeds exactly when the name gives a
/// text, with that text, and only on a stream with a token tree; syn's error
/// is not named.
#[verifier::external_body]
pub(crate) fn parse_ident(tokens: TokenStream) -> (r: Result<String, syn::Error>)
    ensures
        match spec_ident_of(tokens) {
            Some(text) => r matches Ok(s) && s@ == text,
            None => r is Err,
        },
        r is Ok ==> spec_token_trees(tokens).len() > 0,
{
    syn::parse2::<syn::Ident>(tokens).map(|ident| ident.to_string())
}

/// The character of a punctuation token.
pub uninterp spec fn spec_punct_char(tree: TokenTree) -> Option<char>;

/// `Punct::as_char` for a punctuation token, `None` for any other token
/// tree, as named.
#[verifier::external_body]
pub(crate) fn punct_char(tree: &TokenTree) -> (r: Option<char>)
    ensures
        r == spec_punct_char(*tree),
{
    match tree {
        TokenTree::Punct(punct) => Some(punct.as_char()),
        TokenTree::Ident(_) => None,
        TokenTree::Group(_) => None,
        TokenTree::Literal(_) => None,
    }
}

/// The span of a token tree.
pub uninterp spec fn spec_token_span(tree: TokenTree) -> Span;

/// `TokenTree::span`, as named.
#[verifier::external_body]
pub(crate) fn token_span(tree: &TokenTree) -> (r: Span)
    ensures
        r == spec_token_span(*tree),
{
    tree.span()
}

/// `Span::call_site()`. It depends on the macro invocation, so nothing is
/// stated of it.
#[verifier::external_body]
pub(crate) fn call_site() -> (r: Span) {
    Span::call_site()
}

/// Whether tokens are an invocation of the compiler's error macro, which
/// reports an error where they are expanded.
pub uninterp spec fn spec_reports_error(tokens: TokenStream) -> bool;

/// The tokens that report an error with a message at a span.
pub uninterp spec fn spec_error_tokens_at(span: Span, message: Seq<char>) -> TokenStream;

/// `syn::Error::new(span, message)` rendered at once by
/// `Error::into_compile_error` (on the thread that made it, so the span is
/// the one given), as named; they report an error.
#[verifier::external_body]
pub(crate) fn error_tokens_at(span: Span, message: &str) -> (r: TokenStream)
    ensures
        r == spec_error_tokens_at(span, message@),
        spec_reports_error(r),
{
    syn::Error::new(span, message).into_compile_error()
}

/// The tokens that report an error with a message at an attribute.
pub uninterp spec fn spec_attr_error_tokens(attr: Attribute, message: Seq<char>) -> TokenStream;

/// `syn::Error::new_spanned(attr, message)` rendered at once by
/// `Error::into_compile_error` (on the thread that made it), as named; they
/// report an error.
#[verifier::external_body]
pub(crate) fn attr_error_tokens(attr: &Attribute, message: &str) -> (r: TokenStream)
    ensures
        r == spec_attr_error_tokens(*attr, message@),
        spec_reports_error(r),
{
    syn::Error::new_spanned(attr, message).into_compile_error()
}

/// `syn::Error::into_compile_error` on an error that syn reported: the
/// tokens report an error. They are not named: such an error may carry the
/// call site's span.
#[verifier::external_body]
pub(crate) fn error_tokens(error: syn::Error) -> (r: TokenStream)
    ensures
        spec_reports_error(r),
{
    error.into_compile_error()
}

/// The `impl` block that a token stream forms; `None` when syn refuses it.
pub uninterp spec fn spec_parse_item_impl(tokens: TokenStream) -> Option<ItemImpl>;

/// `syn::parse2::<ItemImpl>`. Claimed: `Ok` of the named block exactly when
/// the name gives one; syn's error is not named.
#[verifier::external_body]
pub(crate) fn parse_item_impl(tokens: TokenStream) -> (r: Result<ItemImpl, syn::Error>)
    ensures
        match spec_parse_item_impl(tokens) {
            Some(block) => r == Ok::<ItemImpl, syn::Error>(block),
            None => r is Err,
        },
{
    syn::parse2::<ItemImpl>(tokens)
}

/// The items of an `impl` block, in order.
pub uninterp spec fn spec_impl_items(block: ItemImpl) -> Seq<ImplItem>;

/// References to the items of an `impl` block (its `items` field), as
/// named.
#[verifier::external_body]
pub(crate) fn impl_items(block: &ItemImpl) -> (r: Vec<&ImplItem>)
    ensures
        r@.len() == spec_impl_items(*block).len(),
        forall|i: int| 0 <= i < r@.len() ==> *(#[trigger] r@[i]) == spec_impl_items(*block)[i],
{
    block.items.iter().collect()
}

/// The method that an `impl` item is; `None` for any other kind of item.
pub uninterp spec fn spec_impl_item_fn(item: ImplItem) -> Option<ImplItemFn>;

/// The method inside `ImplItem::Fn`, `None` for the other variants, as
/// named.
#[verifier::external_body]
pub(crate) fn impl_item_fn(item: &ImplItem) -> (r: Option<&ImplItemFn>)
    ensures
        match r {
            Some(method) => spec_impl_item_fn(*item) == Some(*method),
            None => spec_impl_item_fn(*item) is None,
        },
{
    match item {
        ImplItem::Fn(method) => Some(method),
        _ => None,
    }
}

/// The attributes of a method, in order.
pub uninterp spec fn spec_fn_attrs(method: ImplItemFn) -> Seq<Attribute>;

/// References to the attributes of a method (its `attrs` field), as named.
#[verifier::external_body]
pub(crate) fn fn_attrs(method: &ImplItemFn) -> (r: Vec<&Attribute>)
    ensures
        r@.len() == spec_fn_attrs(*method).len(),
        forall|i: int| 0 <= i < r@.len() ==> *(#[trigger] r@[i]) == spec_fn_attrs(*method)[i],
{
    method.attrs.iter().collect()
}

/// Whether the path of an attribute is the single identifier `name`.
pub uninterp spec fn spec_attr_path_is_ident(attr: Attribute, name: Seq<char>) -> bool;

/// `Attribute::path().is_ident(name)`, as named.
#[verifier::external_body]
pub(crate) fn attr_path_is_ident(attr: &Attribute, name: &str) -> (r: bool)
    ensures
        r == spec_attr_path_is_ident(*attr, name@),
{
    attr.path().is_ident(name)
}

/// The argument in parentheses of an attribute, parsed as a type; `None`
/// when the attribute has no parenthesized argument or it is not a type.
pub uninterp spec fn spec_attr_type_arg(attr: Attribute) -> Option<Type>;

/// `MetaList::parse_args::<Type>()` on an attribute of the list form (`None`
/// on syn's error and for the path and name-value forms, where
/// `Attribute::parse_args` reports an error), as named.
#[verifier::external_body]
pub(crate) fn attr_type_arg(attr: &Attribute) -> (r: Option<Type>)
    ensures
        r == spec_attr_type_arg(*attr),
{
    match &attr.meta {
        syn::Meta::List(list) => list.parse_args::<Type>().ok(),
        syn::Meta::Path(_) => None,
        syn::Meta::NameValue(_) => None,
    }
}

/// The segments of a path type; `None` for any other kind of type.
pub uninterp spec fn spec_type_path(ty: Type) -> Option<Seq<SegmentSpec>>;

/// For `Type::Path`, each segment's identifier (`Ident::to_string`) and
/// whether it carries arguments (`!PathArguments::is_none`), in order;
/// `None` for the other variants. As named.
#[verifier::external_body]
pub(crate) fn type_path_segments(ty: &Type) -> (r: Option<Vec<SegmentInfo>>)
    ensures
        match r {
            Some(v) => spec_type_path(*ty) == Some(segments_view(v@)),
            None => spec_type_path(*ty) is None,
        },
{
    match ty {
        Type::Path(p) => Some(p.path.segments.iter().map(|s| SegmentInfo {
            ident: s.ident.to_string(),
            has_args: !s.arguments.is_none(),
        }).collect()),
        _ => None,
    }
}

/// The source text of a type.
pub uninterp spec fn spec_type_text(ty: Type) -> Seq<char>;

/// `ToTokens::to_token_stream` of a type, then `TokenStream::to_string`, as
/// named.
#[verifier::external_body]
pub(crate) fn type_text(ty: &Type) -> (r: String)
    ensures
        r@ == spec_type_text(*ty),
{
    quote::ToTokens::to_token_stream(ty).to_string()
}

/// The inputs of a method's signature, in order.
pub uninterp spec fn spec_fn_inputs(method: ImplItemFn) -> Seq<FnArg>;

/// References to the inputs of a method's signature (`sig.inputs`), as
/// named.
#[verifier::external_body]
pub(crate) fn fn_inputs(method: &ImplItemFn) -> (r: Vec<&FnArg>)
    ensures
        r@.len() == spec_fn_inputs(*method).len(),
        forall|i: int| 0 <= i < r@.len() ==> *(#[trigger] r@[i]) == spec_fn_inputs(*method)[i],
{
    method.sig.inputs.iter().collect()
}

/// What an input of a signature is.
pub uninterp spec fn spec_fn_arg(arg: FnArg) -> InputSpec;

/// For a receiver: whether its type is a reference (`Type::Reference`;
/// syn gives `&self` and `&mut self` that type too) and whether that
/// reference is `mut` (for a receiver of another type, whether it is
/// `mut self`). For a typed argument: the source text of its pattern. As
/// named.
#[verifier::external_body]
pub(crate) fn fn_arg_info(arg: &FnArg) -> (r: InputInfo)
    ensures
        r@ == spec_fn_arg(*arg),
{
    match arg {
        FnArg::Receiver(rec) => match &*rec.ty {
            Type::Reference(reference) => InputInfo::Receiver {
                reference: true,
                mutable: reference.mutability.is_some(),
            },
            _ => InputInfo::Receiver { reference: false, mutable: rec.mutability.is_some() },
        },
        FnArg::Typed(pat) => InputInfo::Typed(quote::ToTokens::to_token_stream(&pat.pat).to_string()),
    }
}

/// The name of a method.
pub uninterp spec fn spec_fn_name(method: ImplItemFn) -> Seq<char>;

/// `sig.ident.to_string()`, as named.
#[verifier::external_body]
pub(crate) fn fn_name(method: &ImplItemFn) -> (r: String)
    ensures
        r@ == spec_fn_name(*method),
{
    method.sig.ident.to_string()
}

/// Whether a method is declared `async`.
pub uninterp spec fn spec_fn_is_async(method: ImplItemFn) -> bool;

/// `sig.asyncness.is_some()`, as named.
#[verifier::external_body]
pub(crate) fn fn_is_async(method: &ImplItemFn) -> (r: bool)
    ensures
        r == spec_fn_is_async(*method),
{
    method.sig.asyncness.is_some()
}

/// The source text of a method's return type: empty for the default
/// return, `-> T` otherwise.
pub uninterp spec fn spec_fn_output_text(method: ImplItemFn) -> Seq<char>;

/// `ToTokens::to_token_stream` of `sig.output`, then
/// `TokenStream::to_string`, as named.
#[verifier::external_body]
pub(crate) fn fn_output_text(method: &ImplItemFn) -> (r: String)
    ensures
        r@ == spec_fn_output_text(*method),
{
    quote::ToTokens::to_token_stream(&method.sig.output).to_string()
}

/// Whether an `impl` item is what syn's parser reads from a text, spans
/// aside. It is a relation: it claims nothing of which texts parse.
pub uninterp spec fn spec_is_parse_of(item: ImplItem, text: Seq<char>) -> bool;

/// Whether a character can stand in an identifier (ASCII letters, digits and
/// `_`, and, to be safe, every non-ASCII character).
pub open spec fn ident_char(c: char) -> bool {
    ||| 'a' <= c <= 'z'
    ||| 'A' <= c <= 'Z'
    ||| '0' <= c <= '9'
    ||| c == '_'
    ||| c as int > 127
}

/// Whether a text avoids the spots where the compiler's lexer reads text
/// differently by edition (the reserved prefixes and guarded strings of
/// later editions): no `#`, `"` or `'` right after an identifier character,
/// and no `#` or `"` right after `#`.
pub open spec fn edition_neutral(text: Seq<char>) -> bool {
    forall|i: int| 1 <= i < text.len() ==> {
        &&& (#[trigger] text[i] == '#' || text[i] == '"' || text[i] == '\'') ==> !ident_char(text[i - 1])
        &&& (text[i] == '#' || text[i] == '"') ==> text[i - 1] != '#'
    }
}

/// `syn::parse_str::<ImplItem>`. Claimed: an item it gives is the parse of
/// the text; and, for a text that is edition-neutral, it succeeds whenever
/// the text has a parse (reading it does not depend on the expansion). Outside a macro the text is read by
/// proc-macro2's own lexer; inside one, that lexer checks it first and the
/// compiler's lexer, which reads other texts by the call site's edition,
/// then reads it.
#[verifier::external_body]
pub(crate) fn parse_impl_item(text: &str) -> (r: Result<ImplItem, syn::Error>)
    ensures
        r matches Ok(item) ==> spec_is_parse_of(item, text@),
        edition_neutral(text@) && (exists|item: ImplItem| spec_is_parse_of(item, text@)) ==> r is Ok,
{
    syn::parse_str::<ImplItem>(text)
}

/// An `impl` block without its items: its attributes, `unsafe`, generics,
/// trait and self type.
pub uninterp spec fn spec_impl_frame(block: ItemImpl) -> ItemImpl;

/// `Vec::push` on the `items` of an `impl` block: the item comes last and
/// nothing else of the block changes.
#[verifier::external_body]
pub(crate) fn push_impl_item(block: &mut ItemImpl, item: ImplItem)
    ensures
        spec_impl_items(*final(block)) == spec_impl_items(*old(block)).push(item),
        spec_impl_frame(*final(block)) == spec_impl_frame(*old(block)),
{
    block.items.push(item)
}

/// The tokens of an `impl` block.
pub uninterp spec fn spec_item_impl_tokens(block: ItemImpl) -> TokenStream;

/// `ToTokens::to_token_stream` of an `impl` block, as named.
#[verifier::external_body]
pub(crate) fn item_impl_tokens(block: &ItemImpl) -> (r: TokenStream)
    ensures
        r == spec_item_impl_tokens(*block),
{
    quote::ToTokens::to_token_stream(block)
}

} // verus!
