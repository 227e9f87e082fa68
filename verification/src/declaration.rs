//! Union declarations: what a caller writes to ask for a union, as the
//! generator reads it.

use crate::text::{append_words, push_word};
use vstd::prelude::*;

verus! {

/// A type reference: a path as it was written, and its segments, each the
/// token text of one segment with its generic arguments, if it has any.
#[derive(Clone, Debug, PartialEq, Eq)]
pub struct TypePath {
    /// The token text of the whole path.
    pub text: String,
    pub segments: Vec<String>,
}

/// The view of `TypePath` that contracts speak of: every text as its sequence of
/// characters.
pub struct TypePathView {
    pub text: Seq<char>,
    pub segments: Seq<Seq<char>>,
}

impl DeepView for TypePath {
    type V = TypePathView;

    open spec fn deep_view(&self) -> TypePathView {
        TypePathView { text: self.text@, segments: self.segments.deep_view() }
    }
}

impl TypePathView {
    /// Whether the path has a last segment to name a variant after.
    pub open spec fn resolvable(self) -> bool {
        self.segments.len() > 0
    }

    /// The last segment: the name of the variant that wraps this type.
    pub open spec fn tag(self) -> Seq<char>
        recommends
            self.resolvable(),
    {
        self.segments.last()
    }
}

/// One variant of a union: a type reference, with the annotations that were
/// written in front of it.
#[derive(Clone, Debug, PartialEq, Eq)]
pub struct VariantPath {
    /// The token text of each annotation, in order.
    pub attrs: Vec<String>,
    pub path: TypePath,
}

/// The view of `VariantPath` that contracts speak of: every text as its sequence of
/// characters.
pub struct VariantPathView {
    pub attrs: Seq<Seq<char>>,
    pub path: TypePathView,
}

impl DeepView for VariantPath {
    type V = VariantPathView;

    open spec fn deep_view(&self) -> VariantPathView {
        VariantPathView { attrs: self.attrs.deep_view(), path: self.path.deep_view() }
    }
}

impl VariantPathView {
    /// The entry's tokens: its annotations, then its path.
    pub open spec fn words(self) -> Seq<Seq<char>> {
        self.attrs.push(self.path.text)
    }
}

impl VariantPath {
    /// Appends the entry's tokens to `tokens`: the annotations unchanged and
    /// in order, then the path.
    pub fn to_tokens(&self, tokens: &mut Vec<String>)
        ensures
            final(tokens).deep_view() == old(tokens).deep_view() + self.deep_view().words(),
    {
        append_words(tokens, &self.attrs);
        push_word(tokens, self.path.text.as_str());
    }
}

/// A request for a union.
#[derive(Clone, Debug, PartialEq, Eq)]
pub struct TypeWrapInput {
    /// The annotations to carry over to the union, each as token text.
    pub attrs: Vec<String>,
    /// The interfaces to implement for the union, in the order asked for.
    pub auto_impls: Vec<TypePath>,
    /// The visibility qualifier as token text; empty for none.
    pub vis: String,
    /// The union's name.
    pub ident: String,
    /// The variants in declared order.
    pub variants: Vec<VariantPath>,
}

/// The view of `TypeWrapInput` that contracts speak of: every text as its sequence of
/// characters.
pub struct TypeWrapInputView {
    pub attrs: Seq<Seq<char>>,
    pub auto_impls: Seq<TypePathView>,
    pub vis: Seq<char>,
    pub ident: Seq<char>,
    pub variants: Seq<VariantPathView>,
}

impl DeepView for TypeWrapInput {
    type V = TypeWrapInputView;

    open spec fn deep_view(&self) -> TypeWrapInputView {
        TypeWrapInputView {
            attrs: self.attrs.deep_view(),
            auto_impls: self.auto_impls.deep_view(),
            vis: self.vis@,
            ident: self.ident@,
            variants: self.variants.deep_view(),
        }
    }
}

} // verus!
