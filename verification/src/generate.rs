//! The union generator: from a declaration and the interfaces it asks for to
//! the union, one dispatch block for each interface and one conversion for
//! each variant.

use crate::declaration::{TypePath, TypeWrapInput, TypeWrapInputView, VariantPath, VariantPathView};
use crate::interface::{
    parse_interface, InterfaceDef, InterfaceDefView, MethodDeclView, ReceiverFault,
};
use crate::registry::{looked_up, Registry};
use crate::text::{copy_words, lemma_deep_view_push};
use vstd::prelude::*;
use vstd::string::StringExecFns;

verus! {

/// Whether `i` is the first position at which `flags` holds `true`.
pub open spec fn is_first(flags: Seq<bool>, i: int) -> bool {
    &&& 0 <= i < flags.len()
    &&& flags[i]
    &&& forall|j: int| 0 <= j < i ==> !#[trigger] flags[j]
}

/// The first position at which `flags` holds `true`, if there is one.
pub open spec fn first_true(flags: Seq<bool>) -> Option<int> {
    if exists|i: int| is_first(flags, i) {
        Some(choose|i: int| is_first(flags, i))
    } else {
        None
    }
}

/// A first position is the first position.
pub proof fn lemma_first_true_is(flags: Seq<bool>, i: int)
    requires
        is_first(flags, i),
    ensures
        first_true(flags) == Some(i),
{
    let k = choose|k: int| is_first(flags, k);
    if k < i {
    }
    if i < k {
    }
}

/// Where no position holds `true`, there is no first one.
pub proof fn lemma_first_true_none(flags: Seq<bool>)
    requires
        forall|i: int| 0 <= i < flags.len() ==> !#[trigger] flags[i],
    ensures
        first_true(flags) is None,
{
}

/// Where some position holds `true`, there is a first one, at or before it.
pub proof fn lemma_first_true_exists(flags: Seq<bool>, i: int)
    requires
        0 <= i < flags.len(),
        flags[i],
    ensures
        first_true(flags) is Some,
        is_first(flags, first_true(flags)->0),
        first_true(flags)->0 <= i,
    decreases i,
{
    if forall|j: int| 0 <= j < i ==> !#[trigger] flags[j] {
        lemma_first_true_is(flags, i);
    } else {
        let j = choose|j: int| 0 <= j < i && flags[j];
        lemma_first_true_exists(flags, j);
    }
}

/// One arm of the union: the variant's name and the type it wraps.
#[derive(Clone, Debug, PartialEq, Eq)]
pub struct Arm {
    pub tag: String,
    /// The wrapped type as token text.
    pub ty: String,
}

/// The view of `Arm` that contracts speak of: every text as its sequence of
/// characters.
pub struct ArmView {
    pub tag: Seq<char>,
    pub ty: Seq<char>,
}

impl DeepView for Arm {
    type V = ArmView;

    open spec fn deep_view(&self) -> ArmView {
        ArmView { tag: self.tag@, ty: self.ty@ }
    }
}

/// One method of a dispatch block. Its body matches on the union and, in
/// every arm, calls the method of the same name on the value inside, with
/// `args` as the arguments.
#[derive(Clone, Debug, PartialEq, Eq)]
pub struct DispatchMethod {
    /// The signature as token text, as the interface declares it.
    pub signature: String,
    pub name: String,
    /// The arguments handed on, each as token text, in order.
    pub args: Vec<String>,
}

/// The view of `DispatchMethod` that contracts speak of: every text as its sequence of
/// characters.
pub struct DispatchMethodView {
    pub signature: Seq<char>,
    pub name: Seq<char>,
    pub args: Seq<Seq<char>>,
}

impl DeepView for DispatchMethod {
    type V = DispatchMethodView;

    open spec fn deep_view(&self) -> DispatchMethodView {
        DispatchMethodView {
            signature: self.signature@,
            name: self.name@,
            args: self.args.deep_view(),
        }
    }
}

/// The implementation of one interface for the union.
#[derive(Clone, Debug, PartialEq, Eq)]
pub struct DispatchImpl {
    pub interface: String,
    /// The interface's generic parameters as token text; empty for none.
    pub generics: String,
    pub methods: Vec<DispatchMethod>,
}

/// The view of `DispatchImpl` that contracts speak of: every text as its sequence of
/// characters.
pub struct DispatchImplView {
    pub interface: Seq<char>,
    pub generics: Seq<char>,
    pub methods: Seq<DispatchMethodView>,
}

impl DeepView for DispatchImpl {
    type V = DispatchImplView;

    open spec fn deep_view(&self) -> DispatchImplView {
        DispatchImplView {
            interface: self.interface@,
            generics: self.generics@,
            methods: self.methods.deep_view(),
        }
    }
}

/// What the generator produces: the union with its arms, and the dispatch
/// blocks. Each arm also stands for the conversion from its type into the
/// union.
#[derive(Clone, Debug, PartialEq, Eq)]
pub struct GeneratedCode {
    pub attrs: Vec<String>,
    pub vis: String,
    pub ident: String,
    pub arms: Vec<Arm>,
    pub dispatch: Vec<DispatchImpl>,
}

/// The view of `GeneratedCode` that contracts speak of: every text as its sequence of
/// characters.
pub struct GeneratedCodeView {
    pub attrs: Seq<Seq<char>>,
    pub vis: Seq<char>,
    pub ident: Seq<char>,
    pub arms: Seq<ArmView>,
    pub dispatch: Seq<DispatchImplView>,
}

impl DeepView for GeneratedCode {
    type V = GeneratedCodeView;

    open spec fn deep_view(&self) -> GeneratedCodeView {
        GeneratedCodeView {
            attrs: self.attrs.deep_view(),
            vis: self.vis@,
            ident: self.ident@,
            arms: self.arms.deep_view(),
            dispatch: self.dispatch.deep_view(),
        }
    }
}

/// Why no code was generated.
#[derive(Clone, Debug, PartialEq, Eq)]
pub enum GenerateError {
    /// A variant's type reference has no last segment to name the variant
    /// after.
    UnresolvableVariant { reference: String },
    /// An interface was asked for that is not in the registry.
    UnknownInterface { interface: String },
    /// The text registered for an interface does not read as an interface.
    UnparseableInterface { interface: String },
    /// A method of an interface does not take the instance by reference.
    InvalidReceiver { interface: String, method: String, fault: ReceiverFault },
}

/// The view of `GenerateError` that contracts speak of: every text as its sequence of
/// characters.
pub enum GenerateErrorView {
    UnresolvableVariant { reference: Seq<char> },
    UnknownInterface { interface: Seq<char> },
    UnparseableInterface { interface: Seq<char> },
    InvalidReceiver { interface: Seq<char>, method: Seq<char>, fault: ReceiverFault },
}

impl DeepView for GenerateError {
    type V = GenerateErrorView;

    open spec fn deep_view(&self) -> GenerateErrorView {
        match self {
            GenerateError::UnresolvableVariant { reference } => GenerateErrorView::UnresolvableVariant {
                reference: reference@,
            },
            GenerateError::UnknownInterface { interface } => GenerateErrorView::UnknownInterface {
                interface: interface@,
            },
            GenerateError::UnparseableInterface {
                interface,
            } => GenerateErrorView::UnparseableInterface { interface: interface@ },
            GenerateError::InvalidReceiver {
                interface,
                method,
                fault,
            } => GenerateErrorView::InvalidReceiver {
                interface: interface@,
                method: method@,
                fault: *fault,
            },
        }
    }
}

impl GenerateErrorView {
    /// The message that the failure is reported with. It names the type
    /// reference, the interface, or the interface and the method at fault.
    pub open spec fn message(self) -> Seq<char> {
        match self {
            GenerateErrorView::UnresolvableVariant {
                reference,
            } => "failed to obtain variant ident from "@ + reference,
            GenerateErrorView::UnknownInterface { interface } => interface
                + " not annotated with #[enum_wrap_impl] or does not exist"@,
            GenerateErrorView::UnparseableInterface { .. } => "unable to parse trait definition"@,
            GenerateErrorView::InvalidReceiver { interface, method, fault } => interface + "::"@
                + method + match fault {
                ReceiverFault::Missing => " does not have a receiver"@,
                ReceiverFault::Typed => ": receiver should not have an arbitrary type"@,
                ReceiverFault::Owned => ": receiver should be a reference"@,
            },
        }
    }
}

impl GenerateError {
    /// The message to report the failure with.
    pub fn message(&self) -> (text: String)
        ensures
            text@ == self.deep_view().message(),
    {
        match self {
            GenerateError::UnresolvableVariant { reference } => {
                String::from_str("failed to obtain variant ident from ").concat(
                    reference.as_str(),
                )
            },
            GenerateError::UnknownInterface { interface } => {
                interface.clone().concat(" not annotated with #[enum_wrap_impl] or does not exist")
            },
            GenerateError::UnparseableInterface { .. } => {
                String::from_str("unable to parse trait definition")
            },
            GenerateError::InvalidReceiver { interface, method, fault } => {
                let named = interface.clone().concat("::").concat(method.as_str());
                match fault {
                    ReceiverFault::Missing => named.concat(" does not have a receiver"),
                    ReceiverFault::Typed => named.concat(
                        ": receiver should not have an arbitrary type",
                    ),
                    ReceiverFault::Owned => named.concat(": receiver should be a reference"),
                }
            },
        }
    }
}

/// What the registry holds for an interface that a union asks for.
#[derive(Clone, Debug, PartialEq, Eq)]
pub enum Resolution {
    /// Nothing is registered under the name.
    Unknown { name: String },
    /// The text registered under the name does not read as an interface.
    Unparseable { name: String },
    /// The interface registered under the name.
    Found(InterfaceDef),
}

/// The view of `Resolution` that contracts speak of: every text as its sequence of
/// characters.
pub enum ResolutionView {
    Unknown { name: Seq<char> },
    Unparseable { name: Seq<char> },
    Found(InterfaceDefView),
}

impl DeepView for Resolution {
    type V = ResolutionView;

    open spec fn deep_view(&self) -> ResolutionView {
        match self {
            Resolution::Unknown { name } => ResolutionView::Unknown { name: name@ },
            Resolution::Unparseable { name } => ResolutionView::Unparseable { name: name@ },
            Resolution::Found(interface) => ResolutionView::Found(interface.deep_view()),
        }
    }
}

/// The arm that a variant becomes: named after the last segment of its type
/// reference, wrapping that type.
pub open spec fn arm_of(variant: VariantPathView) -> ArmView {
    ArmView { tag: variant.path.tag(), ty: variant.path.text }
}

/// For each variant, whether its type reference has no last segment.
pub open spec fn unresolvable(variants: Seq<VariantPathView>) -> Seq<bool> {
    Seq::new(variants.len(), |i: int| !variants[i].path.resolvable())
}

/// The arms of the union, one for each variant and in the variants' order, or
/// the failure for the first variant whose type reference cannot name it.
pub open spec fn extracted_arms(variants: Seq<VariantPathView>) -> Result<
    Seq<ArmView>,
    GenerateErrorView,
> {
    match first_true(unresolvable(variants)) {
        Some(i) => Err(
            GenerateErrorView::UnresolvableVariant { reference: variants[i].path.text },
        ),
        None => Ok(Seq::new(variants.len(), |i: int| arm_of(variants[i]))),
    }
}

/// The dispatch for one method: its signature as declared, and a call that
/// hands on the parameters after the receiver.
pub open spec fn method_dispatch(method: MethodDeclView) -> DispatchMethodView {
    DispatchMethodView {
        signature: method.signature,
        name: method.name,
        args: method.forwarded(),
    }
}

/// For each method, whether it takes the instance otherwise than by
/// reference.
pub open spec fn rejected(methods: Seq<MethodDeclView>) -> Seq<bool> {
    Seq::new(methods.len(), |i: int| methods[i].receiver_fault() is Some)
}

/// The dispatch block for an interface, with its methods in declared order,
/// or the failure for its first method that dispatch does not support.
pub open spec fn interface_dispatch(interface: InterfaceDefView) -> Result<
    DispatchImplView,
    GenerateErrorView,
> {
    match first_true(rejected(interface.methods())) {
        Some(i) => Err(
            GenerateErrorView::InvalidReceiver {
                interface: interface.name,
                method: interface.methods()[i].name,
                fault: interface.methods()[i].receiver_fault()->0,
            },
        ),
        None => Ok(
            DispatchImplView {
                interface: interface.name,
                generics: interface.generics,
                methods: Seq::new(
                    interface.methods().len(),
                    |i: int| method_dispatch(interface.methods()[i]),
                ),
            },
        ),
    }
}

/// The dispatch block for an interface that was asked for, or why there is
/// none.
pub open spec fn resolution_dispatch(resolution: ResolutionView) -> Result<
    DispatchImplView,
    GenerateErrorView,
> {
    match resolution {
        ResolutionView::Unknown { name } => Err(
            GenerateErrorView::UnknownInterface { interface: name },
        ),
        ResolutionView::Unparseable { name } => Err(
            GenerateErrorView::UnparseableInterface { interface: name },
        ),
        ResolutionView::Found(interface) => interface_dispatch(interface),
    }
}

/// For each interface asked for, whether it has no dispatch block.
pub open spec fn failing(resolutions: Seq<ResolutionView>) -> Seq<bool> {
    Seq::new(resolutions.len(), |i: int| resolution_dispatch(resolutions[i]) is Err)
}

/// What the generator makes of a declaration and of what the registry holds
/// for the interfaces it asks for. The first variant that cannot be named
/// fails the generation; else the first interface, in the order asked for,
/// that is unknown, unreadable or has an unsupported method; else the code is
/// the union with one arm for each variant in declared order and one dispatch
/// block for each interface in the order asked for.
pub open spec fn generated(input: TypeWrapInputView, resolutions: Seq<ResolutionView>) -> Result<
    GeneratedCodeView,
    GenerateErrorView,
> {
    match extracted_arms(input.variants) {
        Err(e) => Err(e),
        Ok(arms) => match first_true(failing(resolutions)) {
            Some(i) => Err(resolution_dispatch(resolutions[i])->Err_0),
            None => Ok(
                GeneratedCodeView {
                    attrs: input.attrs,
                    vis: input.vis,
                    ident: input.ident,
                    arms,
                    dispatch: Seq::new(
                        resolutions.len(),
                        |i: int| resolution_dispatch(resolutions[i])->Ok_0,
                    ),
                },
            ),
        },
    }
}

/// Whether `found` is an answer to a lookup of `name` that found `text`.
/// Where nothing is registered under the name, the one answer is that the
/// interface is unknown. Where a text is registered, the answer is the
/// interface that the outside parser read from it, whichever that is, or
/// that the text is unreadable.
pub open spec fn answers(found: ResolutionView, name: Seq<char>, text: Option<Seq<char>>) -> bool {
    match text {
        None => found == (ResolutionView::Unknown { name }),
        Some(_) => found is Found || found == (ResolutionView::Unparseable { name }),
    }
}

/// Whether `found` holds, for each interface that the declaration asks for
/// and in the order asked for, an answer to the lookup of its path as
/// written.
pub open spec fn answered(
    input: TypeWrapInputView,
    records: Map<Seq<char>, Seq<char>>,
    found: Seq<ResolutionView>,
) -> bool {
    &&& found.len() == input.auto_impls.len()
    &&& forall|i: int|
        0 <= i < found.len() ==> answers(
            #[trigger] found[i],
            input.auto_impls[i].text,
            looked_up(records, input.auto_impls[i].text),
        )
}

/// The result of a generation as contracts speak of it.
pub open spec fn outcome(result: Result<GeneratedCode, GenerateError>) -> Result<
    GeneratedCodeView,
    GenerateErrorView,
> {
    match result {
        Ok(code) => Ok(code.deep_view()),
        Err(e) => Err(e.deep_view()),
    }
}

/// Derives the union's arms from the variants.
pub fn extract_arms(variants: &Vec<VariantPath>) -> (result: Result<Vec<Arm>, GenerateError>)
    ensures
        result is Ok <==> forall|i: int|
            0 <= i < variants.len() ==> (#[trigger] variants.deep_view()[i]).path.resolvable(),
        match result {
            Ok(arms) => extracted_arms(variants.deep_view()) == Ok::<
                Seq<ArmView>,
                GenerateErrorView,
            >(arms.deep_view()),
            Err(e) => extracted_arms(variants.deep_view()) == Err::<
                Seq<ArmView>,
                GenerateErrorView,
            >(e.deep_view()),
        },
{
    let ghost views = variants.deep_view();
    let mut arms: Vec<Arm> = Vec::new();
    let mut i: usize = 0;
    while i < variants.len()
        invariant
            i <= variants.len(),
            views == variants.deep_view(),
            forall|j: int| 0 <= j < i ==> !#[trigger] unresolvable(views)[j],
            arms.deep_view() =~= Seq::new(i as nat, |k: int| arm_of(views[k])),
        decreases variants.len() - i,
    {
        let path = &variants[i].path;
        let count: usize = path.segments.len();
        if count == 0 {
            proof {
                lemma_first_true_is(unresolvable(views), i as int);
            }
            return Err(GenerateError::UnresolvableVariant { reference: path.text.clone() });
        }
        let arm = Arm { tag: path.segments[count - 1].clone(), ty: path.text.clone() };
        let ghost before = arms;
        let ghost pushed = arm;
        arms.push(arm);
        proof {
            lemma_deep_view_push(before, pushed, arms);
        }
        i += 1;
    }
    proof {
        lemma_first_true_none(unresolvable(views));
        assert forall|i: int| 0 <= i < variants.len() implies (#[trigger] views[i]).path.resolvable() by {
            assert(!unresolvable(views)[i]);
        }
    }
    Ok(arms)
}

/// Writes the dispatch block for an interface, after checking that every one
/// of its methods takes the instance by reference.
pub fn dispatch(interface: &InterfaceDef) -> (result: Result<DispatchImpl, GenerateError>)
    ensures
        result is Ok <==> forall|k: int|
            0 <= k < interface.deep_view().methods().len() ==> (
            #[trigger] interface.deep_view().methods()[k]).receiver_fault() is None,
        match result {
            Ok(block) => interface_dispatch(interface.deep_view()) == Ok::<
                DispatchImplView,
                GenerateErrorView,
            >(block.deep_view()),
            Err(e) => interface_dispatch(interface.deep_view()) == Err::<
                DispatchImplView,
                GenerateErrorView,
            >(e.deep_view()),
        },
{
    let declared = interface.methods();
    let ghost views = interface.deep_view().methods();
    let mut methods: Vec<DispatchMethod> = Vec::new();
    let mut i: usize = 0;
    while i < declared.len()
        invariant
            i <= declared.len(),
            views == interface.deep_view().methods(),
            views == declared.deep_view(),
            forall|j: int| 0 <= j < i ==> !#[trigger] rejected(views)[j],
            methods.deep_view() =~= Seq::new(i as nat, |k: int| method_dispatch(views[k])),
        decreases declared.len() - i,
    {
        let method = declared[i];
        match method.receiver_fault() {
            None => {},
            Some(fault) => {
                proof {
                    lemma_first_true_is(rejected(views), i as int);
                }
                return Err(
                    GenerateError::InvalidReceiver {
                        interface: interface.name.clone(),
                        method: method.name.clone(),
                        fault,
                    },
                );
            },
        }
        let call = DispatchMethod {
            signature: method.signature.clone(),
            name: method.name.clone(),
            args: method.forwarded(),
        };
        let ghost before = methods;
        let ghost pushed = call;
        methods.push(call);
        proof {
            lemma_deep_view_push(before, pushed, methods);
        }
        i += 1;
    }
    proof {
        lemma_first_true_none(rejected(views));
        assert forall|k: int| 0 <= k < declared.len() implies (#[trigger] views[k]).receiver_fault() is None by {
            assert(!rejected(views)[k]);
        }
    }
    Ok(
        DispatchImpl {
            interface: interface.name.clone(),
            generics: interface.generics.clone(),
            methods,
        },
    )
}

/// Generates the code for a declaration, given what the registry holds for
/// each interface it asks for, in the order asked for.
pub fn generate(input: &TypeWrapInput, resolutions: &Vec<Resolution>) -> (result: Result<
    GeneratedCode,
    GenerateError,
>)
    ensures
        result is Ok <==> {
            &&& forall|i: int|
                0 <= i < input.variants.len() ==> (
                #[trigger] input.deep_view().variants[i]).path.resolvable()
            &&& forall|j: int|
                0 <= j < resolutions.len() ==> resolution_dispatch(
                    #[trigger] resolutions.deep_view()[j],
                ) is Ok
        },
        match result {
            Ok(code) => generated(input.deep_view(), resolutions.deep_view()) == Ok::<
                GeneratedCodeView,
                GenerateErrorView,
            >(code.deep_view()),
            Err(e) => generated(input.deep_view(), resolutions.deep_view()) == Err::<
                GeneratedCodeView,
                GenerateErrorView,
            >(e.deep_view()),
        },
{
    let arms = match extract_arms(&input.variants) {
        Ok(arms) => arms,
        Err(e) => {
            return Err(e);
        },
    };
    let ghost views = resolutions.deep_view();
    let mut blocks: Vec<DispatchImpl> = Vec::new();
    let mut i: usize = 0;
    while i < resolutions.len()
        invariant
            i <= resolutions.len(),
            views == resolutions.deep_view(),
            extracted_arms(input.deep_view().variants) == Ok::<Seq<ArmView>, GenerateErrorView>(
                arms.deep_view(),
            ),
            forall|j: int| 0 <= j < i ==> !#[trigger] failing(views)[j],
            forall|k: int|
                0 <= k < input.variants.len() ==> (
                #[trigger] input.deep_view().variants[k]).path.resolvable(),
            blocks.deep_view() =~= Seq::new(
                i as nat,
                |k: int| resolution_dispatch(views[k])->Ok_0,
            ),
        decreases resolutions.len() - i,
    {
        let outcome = match &resolutions[i] {
            Resolution::Unknown { name } => Err(
                GenerateError::UnknownInterface { interface: name.clone() },
            ),
            Resolution::Unparseable { name } => Err(
                GenerateError::UnparseableInterface { interface: name.clone() },
            ),
            Resolution::Found(interface) => dispatch(interface),
        };
        match outcome {
            Err(e) => {
                proof {
                    lemma_first_true_is(failing(views), i as int);
                }
                return Err(e);
            },
            Ok(block) => {
                let ghost before = blocks;
                let ghost pushed = block;
                blocks.push(block);
                proof {
                    lemma_deep_view_push(before, pushed, blocks);
                }
            },
        }
        i += 1;
    }
    proof {
        lemma_first_true_none(failing(views));
        assert forall|j: int| 0 <= j < resolutions.len() implies resolution_dispatch(
            #[trigger] views[j],
        ) is Ok by {
            assert(!failing(views)[j]);
        }
    }
    Ok(
        GeneratedCode {
            attrs: copy_words(&input.attrs),
            vis: input.vis.clone(),
            ident: input.ident.clone(),
            arms,
            dispatch: blocks,
        },
    )
}

/// Reads the text that a lookup of `name` found back into an interface.
/// Where the lookup found nothing, the interface is unknown. Where it found
/// a text, the outside parser says whether the text reads as an interface
/// and as which.
pub fn resolve_text(name: String, text: Option<String>) -> (found: Resolution)
    ensures
        answers(found.deep_view(), name@, text.deep_view()),
{
    match text {
        None => Resolution::Unknown { name },
        Some(text) => match parse_interface(text.as_str()) {
            None => Resolution::Unparseable { name },
            Some(interface) => Resolution::Found(interface),
        },
    }
}

/// Looks an interface up under its path as written and reads the stored
/// text back.
pub fn resolve(name: &TypePath, registry: &Registry) -> (found: Resolution)
    ensures
        answers(found.deep_view(), name.text@, looked_up(registry@, name.text@)),
{
    let text = registry.lookup(name.text.as_str());
    resolve_text(name.text.clone(), text)
}

/// Generates the code for a declaration: the union, the implementation of
/// each interface asked for, found in `registry`, and the conversions. The
/// result is what `generated` makes of the declaration and of the answers to
/// the lookups. A variant that cannot be named fails the generation whatever
/// the answers are, and so does an interface that is not registered. Where
/// no interface is asked for, no answer is needed.
pub fn enum_wrap2(input: &TypeWrapInput, registry: &Registry) -> (result: Result<
    GeneratedCode,
    GenerateError,
>)
    ensures
        exists|found: Seq<ResolutionView>| #[trigger]
            answered(input.deep_view(), registry@, found) && outcome(result) == generated(
                input.deep_view(),
                found,
            ),
        input.auto_impls.len() == 0 ==> outcome(result) == generated(
            input.deep_view(),
            Seq::empty(),
        ),
        first_true(unresolvable(input.deep_view().variants)) matches Some(i) ==> outcome(result)
            == Err::<GeneratedCodeView, GenerateErrorView>(
            GenerateErrorView::UnresolvableVariant {
                reference: input.deep_view().variants[i].path.text,
            },
        ),
        (exists|j: int|
            0 <= j < input.auto_impls.len() && !registry@.contains_key(
                (#[trigger] input.deep_view().auto_impls[j]).text,
            )) ==> result is Err,
{
    let ghost paths = input.deep_view().auto_impls;
    let mut found: Vec<Resolution> = Vec::new();
    let mut i: usize = 0;
    while i < input.auto_impls.len()
        invariant
            i <= input.auto_impls.len(),
            paths == input.deep_view().auto_impls,
            found.len() == i,
            forall|k: int|
                0 <= k < i ==> answers(
                    #[trigger] found.deep_view()[k],
                    paths[k].text,
                    looked_up(registry@, paths[k].text),
                ),
        decreases input.auto_impls.len() - i,
    {
        let ghost before = found;
        let next = resolve(&input.auto_impls[i], registry);
        let ghost pushed = next;
        found.push(next);
        proof {
            lemma_deep_view_push(before, pushed, found);
        }
        i += 1;
    }
    let result = generate(input, &found);
    proof {
        assert(answered(input.deep_view(), registry@, found.deep_view()));
        if input.auto_impls.len() == 0 {
            assert(found.deep_view() =~= Seq::<ResolutionView>::empty());
        }
        if exists|j: int| 0 <= j < paths.len() && !registry@.contains_key((#[trigger] paths[j]).text) {
            let j = choose|j: int|
                0 <= j < paths.len() && !registry@.contains_key((#[trigger] paths[j]).text);
            unregistered_interface_fails(input.deep_view(), registry@, found.deep_view(), j);
        }
    }
    result
}

/// The arms of the union stand in the order of the variants, each named
/// after the last segment of its variant's type reference and wrapping that
/// type; the dispatch blocks stand in the order in which the interfaces were
/// asked for, each with the methods of its interface in declared order.
pub proof fn generation_preserves_order(
    input: TypeWrapInputView,
    resolutions: Seq<ResolutionView>,
)
    requires
        generated(input, resolutions) is Ok,
    ensures
        ({
            let code = generated(input, resolutions)->Ok_0;
            &&& code.arms.len() == input.variants.len()
            &&& forall|i: int|
                0 <= i < input.variants.len() ==> {
                    &&& input.variants[i].path.resolvable()
                    &&& (#[trigger] code.arms[i]).tag == input.variants[i].path.segments.last()
                    &&& code.arms[i].ty == input.variants[i].path.text
                }
            &&& code.dispatch.len() == resolutions.len()
            &&& forall|j: int|
                0 <= j < resolutions.len() ==> {
                    &&& resolutions[j] is Found
                    &&& (#[trigger] code.dispatch[j]).interface == resolutions[j]->Found_0.name
                    &&& code.dispatch[j].generics == resolutions[j]->Found_0.generics
                    &&& code.dispatch[j].methods.len() == resolutions[j]->Found_0.methods().len()
                    &&& forall|k: int|
                        0 <= k < code.dispatch[j].methods.len() ==> (
                        #[trigger] code.dispatch[j].methods[k]) == method_dispatch(
                            resolutions[j]->Found_0.methods()[k],
                        )
                }
        }),
{
    assert forall|i: int| 0 <= i < input.variants.len() implies input.variants[i].path.resolvable() by {
        if !input.variants[i].path.resolvable() {
            lemma_first_true_exists(unresolvable(input.variants), i);
        }
    }
    assert forall|j: int| 0 <= j < resolutions.len() implies resolution_dispatch(
        resolutions[j],
    ) is Ok by {
        if resolution_dispatch(resolutions[j]) is Err {
            lemma_first_true_exists(failing(resolutions), j);
        }
    }
}

/// An interface that is asked for and was never registered fails the
/// generation, whatever the lookups of the others answer. Where nothing
/// before it fails, the failure is the one for an unknown interface, and its
/// message starts with the name asked for.
pub proof fn unregistered_interface_fails(
    input: TypeWrapInputView,
    records: Map<Seq<char>, Seq<char>>,
    found: Seq<ResolutionView>,
    i: int,
)
    requires
        answered(input, records, found),
        0 <= i < input.auto_impls.len(),
        !records.contains_key(input.auto_impls[i].text),
    ensures
        generated(input, found) is Err,
        ({
            let name = input.auto_impls[i].text;
            let failure = GenerateErrorView::UnknownInterface { interface: name };
            &&& name.is_prefix_of(failure.message())
            &&& extracted_arms(input.variants) is Ok && is_first(failing(found), i) ==> generated(
                input,
                found,
            ) == Err::<GeneratedCodeView, GenerateErrorView>(failure)
        }),
{
    lemma_first_true_exists(failing(found), i);
    if is_first(failing(found), i) {
        lemma_first_true_is(failing(found), i);
    }
}

/// An interface with a method that does not take the instance by reference
/// fails the generation, whatever the variants are. Where nothing before it
/// fails, the failure names the interface and its first such method.
pub proof fn unsupported_receiver_fails(
    input: TypeWrapInputView,
    resolutions: Seq<ResolutionView>,
    i: int,
    k: int,
)
    requires
        0 <= i < resolutions.len(),
        resolutions[i] is Found,
        0 <= k < resolutions[i]->Found_0.methods().len(),
        resolutions[i]->Found_0.methods()[k].receiver_fault() is Some,
    ensures
        generated(input, resolutions) is Err,
        ({
            let interface = resolutions[i]->Found_0;
            &&& resolution_dispatch(resolutions[i]) is Err
            &&& extracted_arms(input.variants) is Ok && is_first(failing(resolutions), i)
                && is_first(rejected(interface.methods()), k) ==> generated(input, resolutions)
                == Err::<GeneratedCodeView, GenerateErrorView>(
                GenerateErrorView::InvalidReceiver {
                    interface: interface.name,
                    method: interface.methods()[k].name,
                    fault: interface.methods()[k].receiver_fault()->0,
                },
            )
        }),
{
    let interface = resolutions[i]->Found_0;
    lemma_first_true_exists(rejected(interface.methods()), k);
    lemma_first_true_exists(failing(resolutions), i);
    if is_first(failing(resolutions), i) {
        lemma_first_true_is(failing(resolutions), i);
    }
    if is_first(rejected(interface.methods()), k) {
        lemma_first_true_is(rejected(interface.methods()), k);
    }
}

} // verus!
