//! Plain-value models of the pieces of Rust syntax that the dispatch
//! generator reads: types named in attributes, method signatures and the
//! items of an `impl` block.
use vstd::prelude::*;

verus! {

/// What the generator reads of a Rust type.
///
/// `path` holds the segments of the path when the type is a path type (such
/// as `Message::Inc`), and is `None` for every other kind of type. `text` is
/// the source text of the type, used when emitting code.
pub struct TypeInfo {
    pub path: Option<Vec<SegmentInfo>>,
    pub text: String,
}

/// One segment of a path: its identifier, and whether it carries arguments
/// (`<..>` or `(..)`, as in `Inc(isize)`).
pub struct SegmentInfo {
    pub ident: String,
    pub has_args: bool,
}

/// Mathematical view of a [`SegmentInfo`].
pub ghost struct SegmentSpec {
    pub ident: Seq<char>,
    pub has_args: bool,
}

impl View for SegmentInfo {
    type V = SegmentSpec;

    open spec fn view(&self) -> SegmentSpec {
        SegmentSpec { ident: self.ident@, has_args: self.has_args }
    }
}

/// The view of a list of segments.
pub open spec fn segments_view(segments: Seq<SegmentInfo>) -> Seq<SegmentSpec> {
    segments.map_values(|s: SegmentInfo| s@)
}

/// Mathematical view of a [`TypeInfo`].
pub ghost struct TypeSpec {
    pub path: Option<Seq<SegmentSpec>>,
    pub text: Seq<char>,
}

impl View for TypeInfo {
    type V = TypeSpec;

    open spec fn view(&self) -> TypeSpec {
        TypeSpec {
            path: match self.path {
                Some(segments) => Some(segments_view(segments@)),
                None => None,
            },
            text: self.text@,
        }
    }
}

/// One input of a method signature.
pub enum InputInfo {
    /// A `self` receiver: `reference` is set for `&self`/`&mut self`,
    /// `mutable` for `&mut self`/`mut self`.
    Receiver { reference: bool, mutable: bool },
    /// A typed argument; the field is the source text of its pattern.
    Typed(String),
}

/// Mathematical view of an [`InputInfo`].
pub ghost enum InputSpec {
    Receiver { reference: bool, mutable: bool },
    Typed(Seq<char>),
}

impl View for InputInfo {
    type V = InputSpec;

    open spec fn view(&self) -> InputSpec {
        match self {
            InputInfo::Receiver { reference, mutable } => InputSpec::Receiver {
                reference: *reference,
                mutable: *mutable,
            },
            InputInfo::Typed(pat) => InputSpec::Typed(pat@),
        }
    }
}

/// One outer attribute of a method.
pub enum AttrInfo {
    /// An attribute whose path is the single identifier `handle`; the field is
    /// its argument parsed as a type, or `None` when the argument is not a
    /// type in parentheses.
    Handle(Option<TypeInfo>),
    /// Any other attribute.
    Other,
}

/// Mathematical view of an [`AttrInfo`].
pub ghost enum AttrSpec {
    Handle(Option<TypeSpec>),
    Other,
}

impl View for AttrInfo {
    type V = AttrSpec;

    open spec fn view(&self) -> AttrSpec {
        match self {
            AttrInfo::Handle(Some(t)) => AttrSpec::Handle(Some(t@)),
            AttrInfo::Handle(None) => AttrSpec::Handle(None),
            AttrInfo::Other => AttrSpec::Other,
        }
    }
}

/// What the generator reads of a method of an `impl` block.
pub struct MethodInfo {
    /// The method's name.
    pub name: String,
    /// Its outer attributes, in source order.
    pub attrs: Vec<AttrInfo>,
    /// Its inputs, receiver included, in source order.
    pub inputs: Vec<InputInfo>,
    /// Whether it is declared `async`.
    pub is_async: bool,
    /// Source text of its return type: empty for the default `()` return,
    /// `-> T` otherwise.
    pub output: String,
}

/// Mathematical view of a [`MethodInfo`].
pub ghost struct MethodSpec {
    pub name: Seq<char>,
    pub attrs: Seq<AttrSpec>,
    pub inputs: Seq<InputSpec>,
    pub is_async: bool,
    pub output: Seq<char>,
}

impl View for MethodInfo {
    type V = MethodSpec;

    open spec fn view(&self) -> MethodSpec {
        MethodSpec {
            name: self.name@,
            attrs: self.attrs@.map_values(|a: AttrInfo| a@),
            inputs: self.inputs@.map_values(|i: InputInfo| i@),
            is_async: self.is_async,
            output: self.output@,
        }
    }
}

/// One item of an `impl` block.
pub enum ItemInfo {
    Method(MethodInfo),
    Other,
}

/// Mathematical view of an [`ItemInfo`].
pub ghost enum ItemSpec {
    Method(MethodSpec),
    Other,
}

impl View for ItemInfo {
    type V = ItemSpec;

    open spec fn view(&self) -> ItemSpec {
        match self {
            ItemInfo::Method(m) => ItemSpec::Method(m@),
            ItemInfo::Other => ItemSpec::Other,
        }
    }
}

/// The view of a list of items.
pub open spec fn items_view(items: Seq<ItemInfo>) -> Seq<ItemSpec> {
    items.map_values(|i: ItemInfo| i@)
}


/// A copy of a list of strings.
pub fn copy_strings(v: &Vec<String>) -> (r: Vec<String>)
    ensures
        r.deep_view() == v.deep_view(),
{
    let mut r: Vec<String> = Vec::new();
    let mut i: usize = 0;
    while i < v.len()
        invariant
            i <= v.len(),
            r.len() == i,
            forall|k: int| 0 <= k < i ==> #[trigger] r@[k]@ == v@[k]@,
        decreases v.len() - i,
    {
        r.push(v[i].clone());
        i = i + 1;
    }
    assert(r.deep_view() =~= v.deep_view());
    r
}

/// A copy of a list of path segments.
pub fn copy_segments(v: &Vec<SegmentInfo>) -> (r: Vec<SegmentInfo>)
    ensures
        segments_view(r@) == segments_view(v@),
{
    let mut r: Vec<SegmentInfo> = Vec::new();
    let mut i: usize = 0;
    while i < v.len()
        invariant
            i <= v.len(),
            r.len() == i,
            forall|k: int| 0 <= k < i ==> #[trigger] r@[k]@ == v@[k]@,
        decreases v.len() - i,
    {
        r.push(SegmentInfo { ident: v[i].ident.clone(), has_args: v[i].has_args });
        i = i + 1;
    }
    assert(segments_view(r@) =~= segments_view(v@));
    r
}

impl TypeInfo {
    /// A copy of this type.
    pub fn copy(&self) -> (r: TypeInfo)
        ensures
            r@ == self@,
    {
        let path = match &self.path {
            Some(segments) => Some(copy_segments(segments)),
            None => None,
        };
        TypeInfo { path, text: self.text.clone() }
    }
}

} // verus!
