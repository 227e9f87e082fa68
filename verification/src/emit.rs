//! Emission: the generated code written out as token text. The union comes
//! first, then the dispatch blocks in their order, then the conversions in
//! the arms' order.

use crate::declaration::TypeWrapInputView;
use crate::generate::{
    arm_of, generated, generation_preserves_order, interface_dispatch, Arm, ArmView, DispatchImpl,
    DispatchImplView, DispatchMethod, DispatchMethodView, GeneratedCode, GeneratedCodeView,
    ResolutionView,
};
use crate::text::{
    append_interleaved, append_words, interleaved, join, joined, push_group,
    push_word,
};
use vstd::prelude::*;

verus! {

/// An arm as the union declares it: the tag, wrapping one value of the type.
pub open spec fn arm_words(arm: ArmView) -> Seq<Seq<char>> {
    seq![arm.tag, "("@, arm.ty, ")"@]
}

/// The union: the annotations and the visibility carried over, and one arm
/// for each variant, in order, with commas between them.
pub open spec fn union_words(code: GeneratedCodeView) -> Seq<Seq<char>> {
    code.attrs + seq![code.vis, "enum"@, code.ident, "{"@] + interleaved(
        Seq::new(code.arms.len(), |i: int| arm_words(code.arms[i])),
        seq![","@],
    ) + seq!["}"@]
}

/// The arguments of a forwarding call, each followed by a comma.
pub open spec fn argument_words(args: Seq<Seq<char>>) -> Seq<Seq<char>> {
    interleaved(Seq::new(args.len(), |i: int| seq![args[i], ","@]), Seq::empty())
}

/// One arm of a method's match: where the union holds this arm, the method
/// of the same name is called on the value inside, with the method's own
/// arguments.
pub open spec fn call_words(ident: Seq<char>, arm: ArmView, method: DispatchMethodView) -> Seq<
    Seq<char>,
> {
    seq![ident, "::"@, arm.tag, "(var) => var."@, method.name, "("@] + argument_words(
        method.args,
    ) + seq![")"@]
}

/// One method of a dispatch block: the signature as declared, and a match on
/// the union with one arm for each variant, in order.
pub open spec fn method_words(
    ident: Seq<char>,
    arms: Seq<ArmView>,
    method: DispatchMethodView,
) -> Seq<Seq<char>> {
    seq![method.signature, "{ match self {"@] + interleaved(
        Seq::new(arms.len(), |i: int| call_words(ident, arms[i], method)),
        seq![","@],
    ) + seq!["} }"@]
}

/// One dispatch block: the implementation of the interface for the union,
/// with the interface's generic parameters, holding the methods in order.
pub open spec fn block_words(
    ident: Seq<char>,
    arms: Seq<ArmView>,
    block: DispatchImplView,
) -> Seq<Seq<char>> {
    seq![
        "#[automatically_derived] impl"@,
        block.generics,
        block.interface,
        block.generics,
        "for"@,
        ident,
        "{"@,
    ] + interleaved(
        Seq::new(block.methods.len(), |i: int| method_words(ident, arms, block.methods[i])),
        Seq::empty(),
    ) + seq!["}"@]
}

/// The conversion for one arm: from a value of the arm's type to the union
/// holding that value under the arm's tag.
pub open spec fn conversion_words(ident: Seq<char>, arm: ArmView) -> Seq<Seq<char>> {
    seq![
        "#[automatically_derived] impl ::core::convert::Into<"@,
        ident,
        "> for"@,
        arm.ty,
        "{ fn into(self) ->"@,
        ident,
        "{"@,
        ident,
        "::"@,
        arm.tag,
        "(self) } }"@,
    ]
}

/// All the dispatch blocks, in order.
pub open spec fn dispatch_words(code: GeneratedCodeView) -> Seq<Seq<char>> {
    interleaved(
        Seq::new(
            code.dispatch.len(),
            |i: int| block_words(code.ident, code.arms, code.dispatch[i]),
        ),
        Seq::empty(),
    )
}

/// All the conversions, in the arms' order.
pub open spec fn conversions_words(code: GeneratedCodeView) -> Seq<Seq<char>> {
    interleaved(
        Seq::new(code.arms.len(), |i: int| conversion_words(code.ident, code.arms[i])),
        Seq::empty(),
    )
}

impl GeneratedCodeView {
    /// The whole output: the union, then the dispatch blocks, then the
    /// conversions.
    pub open spec fn words(self) -> Seq<Seq<char>> {
        union_words(self) + dispatch_words(self) + conversions_words(self)
    }

    /// The output as one text.
    pub open spec fn text(self) -> Seq<char> {
        joined(self.words())
    }
}

fn one_word(word: &str) -> (words: Vec<String>)
    ensures
        words.deep_view() == seq![word@],
{
    let mut words: Vec<String> = Vec::new();
    push_word(&mut words, word);
    words
}

fn no_words() -> (words: Vec<String>)
    ensures
        words.deep_view() == Seq::<Seq<char>>::empty(),
{
    let words: Vec<String> = Vec::new();
    words
}

fn emit_arm(arm: &Arm) -> (words: Vec<String>)
    ensures
        words.deep_view() == arm_words(arm.deep_view()),
{
    let mut words = no_words();
    push_word(&mut words, arm.tag.as_str());
    push_word(&mut words, "(");
    push_word(&mut words, arm.ty.as_str());
    push_word(&mut words, ")");
    words
}

fn emit_union(code: &GeneratedCode, words: &mut Vec<String>)
    ensures
        final(words).deep_view() == old(words).deep_view() + union_words(code.deep_view()),
{
    let ghost view = code.deep_view();
    append_words(words, &code.attrs);
    push_word(words, code.vis.as_str());
    push_word(words, "enum");
    push_word(words, code.ident.as_str());
    push_word(words, "{");
    let mut groups: Vec<Vec<String>> = Vec::new();
    let mut i: usize = 0;
    while i < code.arms.len()
        invariant
            i <= code.arms.len(),
            view == code.deep_view(),
            groups.deep_view() =~= Seq::new(i as nat, |k: int| arm_words(view.arms[k])),
        decreases code.arms.len() - i,
    {
        let group = emit_arm(&code.arms[i]);
        push_group(&mut groups, group);
        i += 1;
    }
    append_interleaved(words, &groups, &one_word(","));
    push_word(words, "}");
}

fn emit_arguments(args: &Vec<String>, words: &mut Vec<String>)
    ensures
        final(words).deep_view() == old(words).deep_view() + argument_words(args.deep_view()),
{
    let ghost view = args.deep_view();
    let mut groups: Vec<Vec<String>> = Vec::new();
    let mut i: usize = 0;
    while i < args.len()
        invariant
            i <= args.len(),
            view == args.deep_view(),
            groups.deep_view() =~= Seq::new(i as nat, |k: int| seq![view[k], ","@]),
        decreases args.len() - i,
    {
        let mut group = one_word(args[i].as_str());
        push_word(&mut group, ",");
        assert(group.deep_view() =~= seq![view[i as int], ","@]);
        push_group(&mut groups, group);
        i += 1;
    }
    append_interleaved(words, &groups, &no_words());
}

fn emit_call(ident: &str, arm: &Arm, method: &DispatchMethod) -> (words: Vec<String>)
    ensures
        words.deep_view() == call_words(ident@, arm.deep_view(), method.deep_view()),
{
    let mut words = no_words();
    push_word(&mut words, ident);
    push_word(&mut words, "::");
    push_word(&mut words, arm.tag.as_str());
    push_word(&mut words, "(var) => var.");
    push_word(&mut words, method.name.as_str());
    push_word(&mut words, "(");
    emit_arguments(&method.args, &mut words);
    push_word(&mut words, ")");
    words
}

fn emit_method(ident: &str, arms: &Vec<Arm>, method: &DispatchMethod) -> (words: Vec<String>)
    ensures
        words.deep_view() == method_words(ident@, arms.deep_view(), method.deep_view()),
{
    let ghost view = arms.deep_view();
    let mut words = no_words();
    push_word(&mut words, method.signature.as_str());
    push_word(&mut words, "{ match self {");
    let mut groups: Vec<Vec<String>> = Vec::new();
    let mut i: usize = 0;
    while i < arms.len()
        invariant
            i <= arms.len(),
            view == arms.deep_view(),
            groups.deep_view() =~= Seq::new(
                i as nat,
                |k: int| call_words(ident@, view[k], method.deep_view()),
            ),
        decreases arms.len() - i,
    {
        let group = emit_call(ident, &arms[i], method);
        push_group(&mut groups, group);
        i += 1;
    }
    append_interleaved(&mut words, &groups, &one_word(","));
    push_word(&mut words, "} }");
    words
}

fn emit_block(ident: &str, arms: &Vec<Arm>, block: &DispatchImpl) -> (words: Vec<String>)
    ensures
        words.deep_view() == block_words(ident@, arms.deep_view(), block.deep_view()),
{
    let ghost view = block.deep_view();
    let mut words = no_words();
    push_word(&mut words, "#[automatically_derived] impl");
    push_word(&mut words, block.generics.as_str());
    push_word(&mut words, block.interface.as_str());
    push_word(&mut words, block.generics.as_str());
    push_word(&mut words, "for");
    push_word(&mut words, ident);
    push_word(&mut words, "{");
    let mut groups: Vec<Vec<String>> = Vec::new();
    let mut i: usize = 0;
    while i < block.methods.len()
        invariant
            i <= block.methods.len(),
            view == block.deep_view(),
            groups.deep_view() =~= Seq::new(
                i as nat,
                |k: int| method_words(ident@, arms.deep_view(), view.methods[k]),
            ),
        decreases block.methods.len() - i,
    {
        let group = emit_method(ident, arms, &block.methods[i]);
        push_group(&mut groups, group);
        i += 1;
    }
    append_interleaved(&mut words, &groups, &no_words());
    push_word(&mut words, "}");
    words
}

fn emit_conversion(ident: &str, arm: &Arm) -> (words: Vec<String>)
    ensures
        words.deep_view() == conversion_words(ident@, arm.deep_view()),
{
    let mut words = no_words();
    push_word(&mut words, "#[automatically_derived] impl ::core::convert::Into<");
    push_word(&mut words, ident);
    push_word(&mut words, "> for");
    push_word(&mut words, arm.ty.as_str());
    push_word(&mut words, "{ fn into(self) ->");
    push_word(&mut words, ident);
    push_word(&mut words, "{");
    push_word(&mut words, ident);
    push_word(&mut words, "::");
    push_word(&mut words, arm.tag.as_str());
    push_word(&mut words, "(self) } }");
    words
}

fn emit_dispatch(code: &GeneratedCode, words: &mut Vec<String>)
    ensures
        final(words).deep_view() == old(words).deep_view() + dispatch_words(code.deep_view()),
{
    let ghost view = code.deep_view();
    let mut groups: Vec<Vec<String>> = Vec::new();
    let mut i: usize = 0;
    while i < code.dispatch.len()
        invariant
            i <= code.dispatch.len(),
            view == code.deep_view(),
            groups.deep_view() =~= Seq::new(
                i as nat,
                |k: int| block_words(view.ident, view.arms, view.dispatch[k]),
            ),
        decreases code.dispatch.len() - i,
    {
        let group = emit_block(code.ident.as_str(), &code.arms, &code.dispatch[i]);
        push_group(&mut groups, group);
        i += 1;
    }
    append_interleaved(words, &groups, &no_words());
}

fn emit_conversions(code: &GeneratedCode, words: &mut Vec<String>)
    ensures
        final(words).deep_view() == old(words).deep_view() + conversions_words(code.deep_view()),
{
    let ghost view = code.deep_view();
    let mut groups: Vec<Vec<String>> = Vec::new();
    let mut i: usize = 0;
    while i < code.arms.len()
        invariant
            i <= code.arms.len(),
            view == code.deep_view(),
            groups.deep_view() =~= Seq::new(
                i as nat,
                |k: int| conversion_words(view.ident, view.arms[k]),
            ),
        decreases code.arms.len() - i,
    {
        let group = emit_conversion(code.ident.as_str(), &code.arms[i]);
        push_group(&mut groups, group);
        i += 1;
    }
    append_interleaved(words, &groups, &no_words());
}

impl GeneratedCode {
    /// The output as a sequence of token texts.
    pub fn words(&self) -> (words: Vec<String>)
        ensures
            words.deep_view() == self.deep_view().words(),
    {
        let mut words = no_words();
        emit_union(self, &mut words);
        emit_dispatch(self, &mut words);
        emit_conversions(self, &mut words);
        words
    }

    /// The output as one text, ready to stand in place of the declaration.
    pub fn to_text(&self) -> (text: String)
        ensures
            text@ == self.deep_view().text(),
    {
        join(&self.words())
    }
}

/// The output follows the declaration. The union carries the declaration's
/// annotations, visibility and name and has its arms in the order of the
/// variants; the dispatch blocks come next, in the order in which the
/// interfaces were asked for; the conversions come last, in the order of the
/// variants.
pub proof fn emission_follows_the_declaration(
    input: TypeWrapInputView,
    resolutions: Seq<ResolutionView>,
)
    requires
        generated(input, resolutions) is Ok,
    ensures
        ({
            let arms = Seq::new(input.variants.len(), |i: int| arm_of(input.variants[i]));
            generated(input, resolutions)->Ok_0.words() == input.attrs + seq![
                input.vis,
                "enum"@,
                input.ident,
                "{"@,
            ] + interleaved(
                Seq::new(input.variants.len(), |i: int| arm_words(arm_of(input.variants[i]))),
                seq![","@],
            ) + seq!["}"@] + interleaved(
                Seq::new(
                    resolutions.len(),
                    |j: int|
                        block_words(
                            input.ident,
                            arms,
                            interface_dispatch(resolutions[j]->Found_0)->Ok_0,
                        ),
                ),
                Seq::empty(),
            ) + interleaved(
                Seq::new(
                    input.variants.len(),
                    |i: int| conversion_words(input.ident, arm_of(input.variants[i])),
                ),
                Seq::empty(),
            )
        }),
{
    let code = generated(input, resolutions)->Ok_0;
    let arms = Seq::new(input.variants.len(), |i: int| arm_of(input.variants[i]));
    generation_preserves_order(input, resolutions);
    assert(Seq::new(code.arms.len(), |i: int| arm_words(code.arms[i])) =~= Seq::new(
        input.variants.len(),
        |i: int| arm_words(arm_of(input.variants[i])),
    ));
    assert(Seq::new(
        code.dispatch.len(),
        |j: int| block_words(code.ident, code.arms, code.dispatch[j]),
    ) =~= Seq::new(
        resolutions.len(),
        |j: int|
            block_words(input.ident, arms, interface_dispatch(resolutions[j]->Found_0)->Ok_0),
    ));
    assert(Seq::new(code.arms.len(), |i: int| conversion_words(code.ident, code.arms[i]))
        =~= Seq::new(
        input.variants.len(),
        |i: int| conversion_words(input.ident, arm_of(input.variants[i])),
    ));
}

} // verus!
