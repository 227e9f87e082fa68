//! Interface definitions as the generator reads them: the name, the generic
//! parameters and the methods with the shape of their parameters.

use crate::interface::InterfaceItem::{Method, Other};
use quote::ToTokens;
use syn::{parse_str, FnArg, ItemTrait, TraitItem};
use vstd::prelude::*;

verus! {

/// One parameter of a method, reduced to what dispatch depends on.
#[derive(Clone, Debug, PartialEq, Eq)]
pub enum Param {
    /// A `self` parameter: `reference` for `&self` and `&mut self`, `typed` for
    /// one written with a type of its own, as in `self: Box<Self>`.
    Receiver { reference: bool, typed: bool },
    /// An ordinary parameter, with the token text of its binding pattern.
    Typed { pattern: String },
}

/// The view of `Param` that contracts speak of: every text as its sequence of
/// characters.
pub enum ParamView {
    Receiver { reference: bool, typed: bool },
    Typed { pattern: Seq<char> },
}

impl DeepView for Param {
    type V = ParamView;

    open spec fn deep_view(&self) -> ParamView {
        match self {
            Param::Receiver { reference, typed } => ParamView::Receiver {
                reference: *reference,
                typed: *typed,
            },
            Param::Typed { pattern } => ParamView::Typed { pattern: pattern@ },
        }
    }
}

/// A method declaration of an interface.
#[derive(Clone, Debug, PartialEq, Eq)]
pub struct MethodDecl {
    /// The method's name.
    pub name: String,
    /// The token text of the whole signature, from `fn` to the return type.
    pub signature: String,
    /// The parameters in declared order.
    pub params: Vec<Param>,
}

/// The view of `MethodDecl` that contracts speak of: every text as its sequence of
/// characters.
pub struct MethodDeclView {
    pub name: Seq<char>,
    pub signature: Seq<char>,
    pub params: Seq<ParamView>,
}

impl DeepView for MethodDecl {
    type V = MethodDeclView;

    open spec fn deep_view(&self) -> MethodDeclView {
        MethodDeclView {
            name: self.name@,
            signature: self.signature@,
            params: self.params.deep_view(),
        }
    }
}

/// One item in the body of an interface definition.
#[derive(Clone, Debug, PartialEq, Eq)]
pub enum InterfaceItem {
    /// A method declaration.
    Method(MethodDecl),
    /// Anything else: an associated type, a constant, a macro call.
    Other,
}

/// The view of `InterfaceItem` that contracts speak of: every text as its sequence of
/// characters.
pub enum InterfaceItemView {
    Method(MethodDeclView),
    Other,
}

impl DeepView for InterfaceItem {
    type V = InterfaceItemView;

    open spec fn deep_view(&self) -> InterfaceItemView {
        match self {
            InterfaceItem::Method(method) => InterfaceItemView::Method(method.deep_view()),
            InterfaceItem::Other => InterfaceItemView::Other,
        }
    }
}

/// An interface definition: its name, its generic parameters as token text,
/// and its items in declared order.
#[derive(Clone, Debug, PartialEq, Eq)]
pub struct InterfaceDef {
    pub name: String,
    pub generics: String,
    pub items: Vec<InterfaceItem>,
}

/// The view of `InterfaceDef` that contracts speak of: every text as its sequence of
/// characters.
pub struct InterfaceDefView {
    pub name: Seq<char>,
    pub generics: Seq<char>,
    pub items: Seq<InterfaceItemView>,
}

impl DeepView for InterfaceDef {
    type V = InterfaceDefView;

    open spec fn deep_view(&self) -> InterfaceDefView {
        InterfaceDefView {
            name: self.name@,
            generics: self.generics@,
            items: self.items.deep_view(),
        }
    }
}

/// Calls `syn::parse_str::<syn::ItemTrait>`, which gives `None` here where it
/// reports an error. Nothing is claimed of what the parser makes of a text;
/// it goes as deep as the text is nested, with no limit but the stack.
/// Of the trait that it parsed the definition keeps the `ident`, what
/// `to_token_stream` prints of `generics`, and the `items` in order: of a
/// method the signature's `ident`, what `to_token_stream` prints of `sig`, and
/// the `inputs` in order; of a receiver whether `reference` and `colon_token`
/// are present, of a typed parameter what `to_token_stream` prints of its
/// `pat`.
#[verifier::external_body]
pub(crate) fn parse_interface(text: &str) -> Option<InterfaceDef> {
    let item: ItemTrait = parse_str(text).ok()?;
    Some(InterfaceDef { name: item.ident.to_string(), generics: item.generics.to_token_stream().to_string(), items: item.items.iter().map(|member| match member {
        TraitItem::Fn(method) => Method(MethodDecl {
            name: method.sig.ident.to_string(),
            signature: method.sig.to_token_stream().to_string(),
            params: method.sig.inputs.iter().map(|input| match input {
                FnArg::Receiver(own) => Param::Receiver { reference: own.reference.is_some(), typed: own.colon_token.is_some() },
                FnArg::Typed(typed) => Param::Typed { pattern: typed.pat.to_token_stream().to_string() },
            }).collect(),
        }),
        _ => Other,
    }).collect() })
}

/// What keeps a method from being dispatched: dispatch supports `&self` and
/// `&mut self` and nothing else.
#[derive(Clone, Copy, Debug, PartialEq, Eq, Structural)]
pub enum ReceiverFault {
    /// The method takes `self` by value.
    Owned,
    /// The method takes `self` with a type written out.
    Typed,
    /// The method has no parameter at all, or its first parameter is not
    /// `self`.
    Missing,
}

/// The patterns of the typed parameters among `params`, in order.
pub open spec fn typed_patterns(params: Seq<ParamView>) -> Seq<Seq<char>>
    decreases params.len(),
{
    if params.len() == 0 {
        Seq::empty()
    } else {
        let before = typed_patterns(params.drop_last());
        match params.last() {
            ParamView::Typed { pattern } => before.push(pattern),
            ParamView::Receiver { .. } => before,
        }
    }
}

impl MethodDeclView {
    /// The verdict on the first parameter: `None` where it is the instance
    /// taken by reference, else what is wrong with it.
    pub open spec fn receiver_fault(self) -> Option<ReceiverFault> {
        if self.params.len() == 0 {
            Some(ReceiverFault::Missing)
        } else {
            match self.params[0] {
                ParamView::Typed { .. } => Some(ReceiverFault::Missing),
                ParamView::Receiver { reference, typed } => if typed {
                    Some(ReceiverFault::Typed)
                } else if reference {
                    None
                } else {
                    Some(ReceiverFault::Owned)
                },
            }
        }
    }

    /// The arguments that a forwarding call hands on: the patterns of the
    /// typed parameters after the first parameter, in declared order.
    pub open spec fn forwarded(self) -> Seq<Seq<char>> {
        if self.params.len() == 0 {
            Seq::empty()
        } else {
            typed_patterns(self.params.drop_first())
        }
    }
}

impl MethodDecl {
    /// Checks the first parameter.
    pub fn receiver_fault(&self) -> (fault: Option<ReceiverFault>)
        ensures
            fault == self.deep_view().receiver_fault(),
    {
        if self.params.len() == 0 {
            return Some(ReceiverFault::Missing);
        }
        match &self.params[0] {
            Param::Typed { .. } => Some(ReceiverFault::Missing),
            Param::Receiver { reference, typed } => {
                if *typed {
                    Some(ReceiverFault::Typed)
                } else if *reference {
                    None
                } else {
                    Some(ReceiverFault::Owned)
                }
            },
        }
    }

    /// Collects the arguments of a forwarding call.
    pub fn forwarded(&self) -> (args: Vec<String>)
        ensures
            args.deep_view() == self.deep_view().forwarded(),
    {
        let mut args: Vec<String> = Vec::new();
        if self.params.len() == 0 {
            return args;
        }
        let ghost rest = self.deep_view().params.drop_first();
        let mut i: usize = 1;
        while i < self.params.len()
            invariant
                1 <= i <= self.params.len(),
                rest == self.deep_view().params.drop_first(),
                args.deep_view() == typed_patterns(rest.take(i - 1)),
            decreases self.params.len() - i,
        {
            assert(rest.take(i as int).drop_last() =~= rest.take(i - 1));
            match &self.params[i] {
                Param::Typed { pattern } => {
                    args.push(pattern.clone());
                },
                Param::Receiver { .. } => {},
            }
            i += 1;
        }
        assert(rest.take(i - 1) =~= rest);
        args
    }
}

/// The methods among the items, in order.
pub open spec fn methods_of(items: Seq<InterfaceItemView>) -> Seq<MethodDeclView>
    decreases items.len(),
{
    if items.len() == 0 {
        Seq::empty()
    } else {
        let before = methods_of(items.drop_last());
        match items.last() {
            InterfaceItemView::Method(method) => before.push(method),
            InterfaceItemView::Other => before,
        }
    }
}

impl InterfaceDefView {
    /// The methods that the interface declares, in declared order.
    pub open spec fn methods(self) -> Seq<MethodDeclView> {
        methods_of(self.items)
    }
}

impl InterfaceDef {
    /// The methods that the interface declares, in declared order; items
    /// that are no method are passed over.
    pub fn methods(&self) -> (methods: Vec<&MethodDecl>)
        ensures
            methods.deep_view() == self.deep_view().methods(),
    {
        let ghost items = self.items.deep_view();
        let mut methods: Vec<&MethodDecl> = Vec::new();
        let mut i: usize = 0;
        while i < self.items.len()
            invariant
                i <= self.items.len(),
                items == self.items.deep_view(),
                methods.deep_view() == methods_of(items.take(i as int)),
            decreases self.items.len() - i,
        {
            assert(items.take(i + 1).drop_last() =~= items.take(i as int));
            match &self.items[i] {
                InterfaceItem::Method(method) => {
                    methods.push(method);
                },
                InterfaceItem::Other => {},
            }
            i += 1;
        }
        assert(items.take(i as int) =~= items);
        methods
    }
}

/// Where every parameter is a typed one, the patterns are those of the
/// parameters, one for one and in order.
pub proof fn lemma_typed_patterns_of_typed(params: Seq<ParamView>)
    requires
        forall|i: int| 0 <= i < params.len() ==> (#[trigger] params[i]) is Typed,
    ensures
        typed_patterns(params).len() == params.len(),
        forall|i: int|
            0 <= i < params.len() ==> (#[trigger] typed_patterns(params)[i])
                == params[i]->pattern,
    decreases params.len(),
{
    if params.len() > 0 {
        let before = params.drop_last();
        lemma_typed_patterns_of_typed(before);
    }
}

/// A forwarding call hands on every parameter after the receiver, each in
/// its own position and as it was declared.
pub proof fn arguments_are_forwarded_in_order(method: MethodDeclView)
    requires
        method.params.len() > 0,
        forall|i: int| 1 <= i < method.params.len() ==> (#[trigger] method.params[i]) is Typed,
    ensures
        method.forwarded().len() == method.params.len() - 1,
        forall|i: int|
            0 <= i < method.params.len() - 1 ==> (#[trigger] method.forwarded()[i])
                == method.params[i + 1]->pattern,
{
    let rest = method.params.drop_first();
    lemma_typed_patterns_of_typed(rest);
}

} // verus!
