use enum_wrap::declaration::{TypePath, TypeWrapInput, VariantPath};
use enum_wrap::parse::{
    count_annotation_run, count_entry, entry_outline, gather_step, join_step, outline,
    parse_directives, parse_paths, parse_variants, sort_annotations, split_entries, Annotation,
    ListMeta, Outline, ParseError, Reading,
};
use enum_wrap::tokens::{copy_tokens, render, Delimiter, Token};

fn ident(name: &str) -> Token {
    Token::Ident(name.to_string())
}

fn punct(ch: char) -> Token {
    Token::Punct { ch, joint: false }
}

fn joint(ch: char) -> Token {
    Token::Punct { ch, joint: true }
}

fn group(delimiter: Delimiter, inner: &str) -> Token {
    Token::Group { delimiter, inner: inner.to_string() }
}

fn texts(tokens: &Vec<Token>) -> String {
    render(tokens, 0, tokens.len())
}

fn failure(result: Result<TypeWrapInput, ParseError>) -> ParseError {
    match result {
        Ok(_) => panic!("the declaration was read"),
        Err(e) => e,
    }
}

fn names(input: &TypeWrapInput) -> Vec<String> {
    input.auto_impls.iter().map(|path| path.text.clone()).collect()
}

fn variants(input: &TypeWrapInput) -> Vec<String> {
    input.variants.iter().map(|variant| variant.path.text.clone()).collect()
}

#[test]
fn tokens_are_written_with_spaces_but_after_joint_punctuation() {
    let tokens = vec![ident("a"), joint(':'), punct(':'), ident("B"), punct('<'), joint('\''), ident("x"), punct('>')];
    assert_eq!(texts(&tokens), "a :: B < 'x > ");
    assert_eq!(render(&tokens, 1, 4), ":: B ");
    assert_eq!(render(&tokens, 1, 2), ":");
    assert_eq!(render(&tokens, 3, 3), "");
}

#[test]
fn a_group_is_written_between_its_brackets() {
    assert_eq!(texts(&vec![group(Delimiter::Parenthesis, "a , b")]), "( a , b ) ");
    assert_eq!(texts(&vec![group(Delimiter::Brace, "")]), "{  } ");
    assert_eq!(texts(&vec![punct('#'), group(Delimiter::Bracket, "doc = \"x\"")]), "# [ doc = \"x\" ] ");
    assert_eq!(texts(&vec![group(Delimiter::Invisible, "x"), Token::Literal("1u8".to_string())]), "  x   1u8 ");
}

#[test]
fn punctuation_is_told_apart_by_its_character() {
    assert!(punct(',').is_punct(','));
    assert!(joint(',').is_punct(','));
    assert!(!punct(';').is_punct(','));
    assert!(!ident(",").is_punct(','));
}

#[test]
fn tokens_are_copied_by_range() {
    let tokens = vec![ident("a"), punct(','), group(Delimiter::Brace, "x"), Token::Literal("7".to_string())];
    assert_eq!(texts(&copy_tokens(&tokens, 1, 4)), ", { x } 7 ");
    assert_eq!(copy_tokens(&tokens, 2, 2).len(), 0);
    assert_eq!(texts(&vec![tokens[2].copy()]), "{ x } ");
}

#[test]
fn the_run_of_annotations_ends_at_the_first_other_token() {
    let tokens = vec![
        punct('#'),
        group(Delimiter::Bracket, "a"),
        punct('#'),
        group(Delimiter::Bracket, "b"),
        ident("pub"),
        punct('#'),
        group(Delimiter::Bracket, "c"),
    ];
    assert_eq!(count_annotation_run(&tokens, tokens.len()), 4);
    assert_eq!(count_annotation_run(&tokens, 4), 4);
    assert_eq!(count_annotation_run(&tokens, 3), 2);
    assert_eq!(count_annotation_run(&tokens, 1), 0);
    assert_eq!(count_annotation_run(&tokens, 0), 0);
}

#[test]
fn a_hash_without_brackets_is_no_annotation() {
    assert_eq!(count_annotation_run(&vec![punct('#'), group(Delimiter::Parenthesis, "a")], 2), 0);
    assert_eq!(count_annotation_run(&vec![punct('#'), punct('!'), group(Delimiter::Bracket, "a")], 3), 0);
    assert_eq!(count_annotation_run(&vec![punct('!'), group(Delimiter::Bracket, "a")], 2), 0);
    assert_eq!(count_annotation_run(&vec![ident("x")], 1), 0);
}

#[test]
fn an_entry_ends_at_a_comma_outside_angle_brackets() {
    let tokens = vec![
        ident("Map"),
        punct('<'),
        ident("K"),
        punct(','),
        ident("V"),
        punct('>'),
        punct(','),
        ident("B"),
    ];
    assert_eq!(count_entry(&tokens, 0), 6);
    assert_eq!(count_entry(&tokens, 2), 1);
    assert_eq!(count_entry(&tokens, 6), 0);
    assert_eq!(count_entry(&tokens, 7), 1);
    assert_eq!(count_entry(&tokens, 8), 0);
}

#[test]
fn an_arrow_closes_no_angle_bracket() {
    let tokens = vec![
        ident("Box"),
        punct('<'),
        ident("Fn"),
        group(Delimiter::Parenthesis, "A"),
        joint('-'),
        punct('>'),
        ident("B"),
        punct(','),
        ident("C"),
        punct('>'),
        punct(','),
        ident("D"),
    ];
    assert_eq!(count_entry(&tokens, 0), 10);
}

#[test]
fn a_list_is_cut_at_its_commas() {
    let tokens = vec![ident("A"), punct(','), ident("m"), joint(':'), punct(':'), ident("B"), punct(',')];
    let list = split_entries(&tokens);
    assert_eq!(list.len(), 2);
    assert_eq!(texts(&list[0]), "A ");
    assert_eq!(texts(&list[1]), "m :: B ");
    assert_eq!(split_entries(&vec![]).len(), 0);
    let gaps = split_entries(&vec![punct(','), ident("A"), punct(','), punct(','), ident("B")]);
    let lengths: Vec<usize> = gaps.iter().map(|entry| entry.len()).collect();
    assert_eq!(lengths, vec![0, 1, 0, 1]);
}

#[test]
fn an_entry_is_read_as_annotations_and_a_path() {
    let entry = vec![
        punct('#'),
        group(Delimiter::Bracket, "doc = \"first\""),
        punct('#'),
        group(Delimiter::Bracket, "allow (unused)"),
        joint(':'),
        punct(':'),
        ident("m"),
        joint(':'),
        punct(':'),
        ident("Vec"),
        punct('<'),
        ident("u8"),
        punct('>'),
    ];
    let variant = VariantPath::parse(&entry).unwrap();
    assert_eq!(variant.attrs, vec!["# [doc = \"first\"]".to_string(), "# [allow (unused)]".to_string()]);
    assert_eq!(variant.path.segments, vec!["m".to_string(), "Vec < u8 >".to_string()]);
    assert_eq!(variant.path.text, ":: m :: Vec < u8 >");
}

#[test]
fn an_entry_that_is_no_path_is_not_read() {
    assert!(VariantPath::parse(&vec![]).is_none());
    assert!(VariantPath::parse(&vec![Token::Literal("1".to_string())]).is_none());
    assert!(VariantPath::parse(&vec![ident("A"), ident("B")]).is_none());
    assert!(VariantPath::parse(&vec![punct('#'), group(Delimiter::Bracket, "1"), ident("A")]).is_none());
    assert!(VariantPath::parse(&vec![ident("A"), punct('#'), group(Delimiter::Bracket, "a")]).is_none());
    assert!(parse_variants(&vec![vec![ident("A")], vec![]]).is_none());
    assert_eq!(parse_variants(&vec![vec![ident("A")], vec![ident("B")]]).unwrap().len(), 2);
}

#[test]
fn paths_are_read_from_entries() {
    let paths = parse_paths(&vec![vec![ident("Speak")], vec![ident("a"), joint(':'), punct(':'), ident("Walk")]]).unwrap();
    assert_eq!(paths.len(), 2);
    assert_eq!(paths[0].segments, vec!["Speak".to_string()]);
    assert_eq!(paths[1].text, "a :: Walk");
    assert!(parse_paths(&vec![vec![ident("Speak")], vec![]]).is_none());
    assert!(parse_paths(&vec![vec![ident("Speak")], vec![punct('+')]]).is_none());
    assert_eq!(parse_paths(&vec![]).unwrap().len(), 0);
}

#[test]
fn directives_are_taken_out_of_the_annotations() {
    let plain = |text: &str| Annotation { text: text.to_string(), list: None };
    let list = |text: &str, name: Option<&str>, tokens: &str| Annotation {
        text: text.to_string(),
        list: Some(ListMeta { name: name.map(|n| n.to_string()), tokens: tokens.to_string() }),
    };
    let annotations = vec![
        list("#[auto_impl(A)]", Some("auto_impl"), "A"),
        list("#[derive(Debug)]", Some("derive"), "Debug"),
        list("#[auto_impl(B, c::D)]", Some("auto_impl"), "B , c :: D"),
        plain("#[non_exhaustive]"),
        list("#[m::auto_impl(E)]", None, "E"),
        list("#[auto_impl()]", Some("auto_impl"), ""),
    ];
    assert!(annotations[0].is_directive());
    assert!(!annotations[1].is_directive());
    assert!(!annotations[3].is_directive());
    assert!(!annotations[4].is_directive());
    let (kept, lists) = sort_annotations(&annotations);
    assert_eq!(lists, vec!["A".to_string(), "B , c :: D".to_string(), String::new()]);
    let asked = parse_directives(&lists).unwrap();
    assert_eq!(
        kept,
        vec![
            "#[derive(Debug)]".to_string(),
            "#[non_exhaustive]".to_string(),
            "#[m::auto_impl(E)]".to_string()
        ]
    );
    let asked: Vec<String> = asked.iter().map(|path| path.text.clone()).collect();
    assert_eq!(asked, vec!["A".to_string(), "B".to_string(), "c :: D".to_string()]);
    assert_eq!(parse_directives(&vec!["B , c :: D".to_string()]).unwrap().len(), 2);
    assert!(!plain("#[x]").is_directive());
}

#[test]
fn a_directive_that_lists_no_paths_fails() {
    let bad = Annotation {
        text: "#[auto_impl(1)]".to_string(),
        list: Some(ListMeta { name: Some("auto_impl".to_string()), tokens: "1".to_string() }),
    };
    assert!(bad.is_directive());
    let (kept, lists) = sort_annotations(&vec![bad]);
    assert_eq!(kept, Vec::<String>::new());
    assert_eq!(lists, vec!["1".to_string()]);
    assert!(parse_directives(&lists).is_none());
    assert!(parse_directives(&vec!["A".to_string(), "B C".to_string()]).is_none());
    assert_eq!(parse_directives(&vec![]), Some(vec![]));
}

#[test]
fn a_declaration_is_read_from_its_text() {
    let input = TypeWrapInput::parse(
        "/// The animals.
         #[derive(Debug)]
         #[auto_impl(Speak, Walk)]
         pub(crate) Animal { Cat, pets::Dog, #[cfg(feature = \"birds\")] Bird<Wing, Beak>, }",
    )
    .ok()
    .unwrap();
    assert_eq!(input.attrs, vec!["# [doc = \" The animals.\"]".to_string(), "# [derive (Debug)]".to_string()]);
    assert_eq!(names(&input), vec!["Speak".to_string(), "Walk".to_string()]);
    assert_eq!(input.vis, "pub (crate)");
    assert_eq!(input.ident, "Animal");
    assert_eq!(
        variants(&input),
        vec!["Cat".to_string(), "pets :: Dog".to_string(), "Bird < Wing , Beak >".to_string()]
    );
    assert_eq!(input.variants[0].attrs, Vec::<String>::new());
    assert_eq!(input.variants[2].attrs, vec!["# [cfg (feature = \"birds\")]".to_string()]);
}

#[test]
fn every_directive_is_consumed_and_the_names_keep_their_order() {
    let input = TypeWrapInput::parse(
        "#[auto_impl(A)] #[derive(Clone)] #[auto_impl(B, C)] #[doc(hidden)] #[auto_impl(D)] U { X }",
    )
    .ok()
    .unwrap();
    assert_eq!(input.attrs, vec!["# [derive (Clone)]".to_string(), "# [doc (hidden)]".to_string()]);
    assert_eq!(names(&input), vec!["A", "B", "C", "D"]);
    assert_eq!(input.vis, "");
}

#[test]
fn a_declaration_may_have_no_variants() {
    let input = TypeWrapInput::parse("pub Never { }").ok().unwrap();
    assert_eq!(input.variants.len(), 0);
    assert_eq!(input.attrs.len(), 0);
    assert_eq!(input.auto_impls.len(), 0);
    assert_eq!(input.vis, "pub");
    assert_eq!(input.ident, "Never");
}

#[test]
fn a_declaration_is_read_from_its_tokens() {
    let tokens = vec![
        punct('#'),
        group(Delimiter::Bracket, "auto_impl (Speak)"),
        ident("pub"),
        ident("U"),
        group(Delimiter::Brace, "A , B"),
    ];
    let input = TypeWrapInput::from_tokens(&tokens).ok().unwrap();
    assert_eq!(names(&input), vec!["Speak"]);
    assert_eq!(input.vis, "pub");
    assert_eq!(input.ident, "U");
    assert_eq!(variants(&input), vec!["A", "B"]);
}

#[test]
fn a_text_that_is_no_token_sequence_fails() {
    assert_eq!(failure(TypeWrapInput::parse("pub U { A ")), ParseError::Tokens);
    assert_eq!(failure(TypeWrapInput::parse("U { \" }")), ParseError::Tokens);
}

#[test]
fn a_declaration_without_name_or_body_fails() {
    assert_eq!(failure(TypeWrapInput::parse("")), ParseError::Shape);
    assert_eq!(failure(TypeWrapInput::parse("pub U")), ParseError::Shape);
    assert_eq!(failure(TypeWrapInput::parse("{ A }")), ParseError::Shape);
    assert_eq!(failure(TypeWrapInput::parse("pub U ( A )")), ParseError::Shape);
    assert_eq!(failure(TypeWrapInput::parse("pub U { A } ;")), ParseError::Shape);
    assert_eq!(failure(TypeWrapInput::parse("pub 7 { A }")), ParseError::Shape);
    assert_eq!(failure(TypeWrapInput::from_tokens(&vec![ident("U")])), ParseError::Shape);
}

#[test]
fn a_malformed_annotation_fails() {
    assert_eq!(failure(TypeWrapInput::parse("#[1] U { A }")), ParseError::Annotations);
    assert_eq!(failure(TypeWrapInput::parse("#[a b] U { A }")), ParseError::Annotations);
}

#[test]
fn a_malformed_directive_fails() {
    assert_eq!(failure(TypeWrapInput::parse("#[auto_impl(1)] U { A }")), ParseError::Directive);
    assert_eq!(failure(TypeWrapInput::parse("#[auto_impl(A B)] U { A }")), ParseError::Directive);
    assert_eq!(failure(TypeWrapInput::parse("#[auto_impl(A,,B)] U { A }")), ParseError::Directive);
}

#[test]
fn a_malformed_visibility_fails() {
    assert_eq!(failure(TypeWrapInput::parse("private U { A }")), ParseError::Visibility);
    assert_eq!(failure(TypeWrapInput::parse("pub(nowhere) U { A }")), ParseError::Visibility);
    assert_eq!(failure(TypeWrapInput::parse("# U { A }")), ParseError::Visibility);
    assert_eq!(failure(TypeWrapInput::parse("#![inner] U { A }")), ParseError::Visibility);
}

#[test]
fn a_name_that_is_a_keyword_fails() {
    assert_eq!(failure(TypeWrapInput::parse("pub { A }")), ParseError::Name);
    assert_eq!(failure(TypeWrapInput::parse("pub fn { A }")), ParseError::Name);
}

#[test]
fn a_malformed_variant_fails() {
    assert_eq!(failure(TypeWrapInput::parse("U { 1 }")), ParseError::Variants);
    assert_eq!(failure(TypeWrapInput::parse("U { A B }")), ParseError::Variants);
    assert_eq!(failure(TypeWrapInput::parse("U { A,, B }")), ParseError::Variants);
    assert_eq!(failure(TypeWrapInput::parse("U { , }")), ParseError::Variants);
    assert_eq!(failure(TypeWrapInput::parse("U { A; B }")), ParseError::Variants);
    assert_eq!(failure(TypeWrapInput::parse("U { #[1] A }")), ParseError::Variants);
    assert_eq!(
        failure(TypeWrapInput::from_tokens(&vec![ident("U"), group(Delimiter::Brace, "A )")])),
        ParseError::Variants
    );
}

#[test]
fn every_failure_has_its_message() {
    assert_eq!(ParseError::Tokens.message(), "expected a sequence of tokens");
    assert_eq!(ParseError::Shape.message(), "expected a name and a braced list of variants");
    assert_eq!(ParseError::Annotations.message(), "malformed annotation");
    assert_eq!(ParseError::Directive.message(), "expected a list of paths in `auto_impl`");
    assert_eq!(ParseError::Visibility.message(), "expected a visibility in front of the name");
    assert_eq!(ParseError::Name.message(), "expected an identifier as the name");
    assert_eq!(
        ParseError::Variants.message(),
        "expected a list of type references between the braces"
    );
}

#[test]
fn from_the_declaration_to_the_code() {
    let mut registry = enum_wrap::registry::Registry::new();
    enum_wrap::registry::enum_wrap_impl2(&mut registry, "pub trait Speak { fn say(&self) -> String; }");
    let input = TypeWrapInput::parse("#[derive(Debug)] #[auto_impl(Speak)] pub Animal { Cat, pets::Dog }")
        .ok()
        .unwrap();
    let text = enum_wrap::generate::enum_wrap2(&input, &registry).ok().unwrap().to_text();
    let expected = "#[derive(Debug)]
        pub enum Animal { Cat(Cat), Dog(pets::Dog) }
        #[automatically_derived]
        impl Speak for Animal {
            fn say(&self) -> String {
                match self { Animal::Cat(var) => var.say(), Animal::Dog(var) => var.say() }
            }
        }
        #[automatically_derived]
        impl ::core::convert::Into<Animal> for Cat { fn into(self) -> Animal { Animal::Cat(self) } }
        #[automatically_derived]
        impl ::core::convert::Into<Animal> for pets::Dog { fn into(self) -> Animal { Animal::Dog(self) } }";
    assert_eq!(
        text.parse::<proc_macro2::TokenStream>().unwrap().to_string(),
        expected.parse::<proc_macro2::TokenStream>().unwrap().to_string()
    );
}

#[test]
fn a_declaration_read_from_text_is_the_one_written_by_hand() {
    let path = |segments: &[&str]| TypePath {
        text: segments.join(" :: "),
        segments: segments.iter().map(|segment| segment.to_string()).collect(),
    };
    let read = TypeWrapInput::parse("#[auto_impl(Speak)] pub U { A, m::B }").ok().unwrap();
    let written = TypeWrapInput {
        attrs: vec![],
        auto_impls: vec![path(&["Speak"])],
        vis: "pub".to_string(),
        ident: "U".to_string(),
        variants: vec![
            VariantPath { attrs: vec![], path: path(&["A"]) },
            VariantPath { attrs: vec![], path: path(&["m", "B"]) },
        ],
    };
    assert_eq!(read, written);
}

#[test]
fn the_tokens_of_a_declaration_are_cut_into_its_parts() {
    let tokens = vec![
        punct('#'),
        group(Delimiter::Bracket, "a"),
        punct('#'),
        group(Delimiter::Bracket, "auto_impl (S)"),
        ident("pub"),
        group(Delimiter::Parenthesis, "crate"),
        ident("U"),
        group(Delimiter::Brace, "A , B"),
    ];
    assert_eq!(
        outline(&tokens),
        Some(Outline {
            annotations: "# [ a ] # [ auto_impl (S) ] ".to_string(),
            visibility: "pub ( crate ) ".to_string(),
            name: "U".to_string(),
            body: "A , B".to_string(),
        })
    );
    assert_eq!(
        outline(&vec![ident("U"), group(Delimiter::Brace, "")]),
        Some(Outline {
            annotations: String::new(),
            visibility: String::new(),
            name: "U".to_string(),
            body: String::new(),
        })
    );
}

#[test]
fn tokens_of_another_shape_have_no_parts() {
    assert_eq!(outline(&vec![]), None);
    assert_eq!(outline(&vec![group(Delimiter::Brace, "A")]), None);
    assert_eq!(outline(&vec![ident("pub"), ident("U")]), None);
    assert_eq!(outline(&vec![ident("U"), group(Delimiter::Parenthesis, "A")]), None);
    assert_eq!(outline(&vec![Token::Literal("7".to_string()), group(Delimiter::Brace, "A")]), None);
    assert_eq!(outline(&vec![ident("U"), group(Delimiter::Brace, "A"), punct(';')]), None);
}

#[test]
fn an_entry_is_cut_into_its_annotations_and_the_rest() {
    let entry = vec![punct('#'), group(Delimiter::Bracket, "a"), ident("m"), joint(':'), punct(':'), ident("T")];
    assert_eq!(entry_outline(&entry), ("# [ a ] ".to_string(), "m :: T ".to_string()));
    assert_eq!(entry_outline(&vec![ident("T")]), (String::new(), "T ".to_string()));
    assert_eq!(entry_outline(&vec![]), (String::new(), String::new()));
}

#[test]
fn a_variant_is_put_together_from_its_parts() {
    let annotations = vec![
        Annotation { text: "#[a]".to_string(), list: None },
        Annotation {
            text: "#[auto_impl(S)]".to_string(),
            list: Some(ListMeta { name: Some("auto_impl".to_string()), tokens: "S".to_string() }),
        },
    ];
    let path = TypePath { text: "m::T".to_string(), segments: vec!["m".to_string(), "T".to_string()] };
    assert_eq!(
        VariantPath::from_parts(Some(annotations.clone()), Some(path.clone())),
        Some(VariantPath {
            attrs: vec!["#[a]".to_string(), "#[auto_impl(S)]".to_string()],
            path: path.clone()
        })
    );
    assert_eq!(VariantPath::from_parts(None, Some(path)), None);
    assert_eq!(VariantPath::from_parts(Some(annotations), None), None);
    assert_eq!(VariantPath::from_parts(None, None), None);
}

fn reading() -> Reading {
    Reading {
        annotations: Some(vec![
            Annotation { text: "#[a]".to_string(), list: None },
            Annotation {
                text: "#[auto_impl(S)]".to_string(),
                list: Some(ListMeta { name: Some("auto_impl".to_string()), tokens: "S".to_string() }),
            },
            Annotation {
                text: "#[derive(Debug)]".to_string(),
                list: Some(ListMeta { name: Some("derive".to_string()), tokens: "Debug".to_string() }),
            },
        ]),
        asked: Some(vec![TypePath { text: "S".to_string(), segments: vec!["S".to_string()] }]),
        visibility: Some("pub".to_string()),
        name: Some("U".to_string()),
        variants: Some(vec![VariantPath {
            attrs: vec![],
            path: TypePath { text: "A".to_string(), segments: vec!["A".to_string()] },
        }]),
    }
}

#[test]
fn a_declaration_is_put_together_from_its_parts() {
    assert_eq!(
        TypeWrapInput::from_parts(reading()),
        Ok(TypeWrapInput {
            attrs: vec!["#[a]".to_string(), "#[derive(Debug)]".to_string()],
            auto_impls: vec![TypePath { text: "S".to_string(), segments: vec!["S".to_string()] }],
            vis: "pub".to_string(),
            ident: "U".to_string(),
            variants: vec![VariantPath {
                attrs: vec![],
                path: TypePath { text: "A".to_string(), segments: vec!["A".to_string()] },
            }],
        })
    );
}

#[test]
fn the_first_part_that_was_refused_gives_the_failure() {
    let mut all = reading();
    all.variants = None;
    assert_eq!(TypeWrapInput::from_parts(all.clone()), Err(ParseError::Variants));
    all.name = None;
    assert_eq!(TypeWrapInput::from_parts(all.clone()), Err(ParseError::Name));
    all.visibility = None;
    assert_eq!(TypeWrapInput::from_parts(all.clone()), Err(ParseError::Visibility));
    all.asked = None;
    assert_eq!(TypeWrapInput::from_parts(all.clone()), Err(ParseError::Directive));
    all.annotations = None;
    assert_eq!(TypeWrapInput::from_parts(all), Err(ParseError::Annotations));
}

fn single(name: &str) -> TypePath {
    TypePath { text: name.to_string(), segments: vec![name.to_string()] }
}

#[test]
fn an_answer_is_taken_in_at_the_end() {
    assert_eq!(gather_step(Some(vec![]), Some(single("A"))), Some(vec![single("A")]));
    assert_eq!(
        gather_step(Some(vec![single("A"), single("B")]), Some(single("C"))),
        Some(vec![single("A"), single("B"), single("C")])
    );
    let first = VariantPath { attrs: vec!["#[a]".to_string()], path: single("Z") };
    let second = VariantPath { attrs: vec![], path: single("A") };
    assert_eq!(
        gather_step(Some(vec![first.clone()]), Some(second.clone())),
        Some(vec![first, second])
    );
}

#[test]
fn a_refusal_stops_the_gathering() {
    assert_eq!(gather_step(Some(vec![single("A")]), None), None);
    assert_eq!(gather_step(None, Some(single("A"))), None);
    assert_eq!(gather_step::<TypePath>(None, None), None);
    let stopped = gather_step(gather_step(Some(vec![single("A")]), None), Some(single("C")));
    assert_eq!(stopped, None);
}

#[test]
fn the_lists_of_the_directives_are_joined_in_order() {
    assert_eq!(join_step::<TypePath>(Some(vec![]), Some(vec![])), Some(vec![]));
    assert_eq!(
        join_step(Some(vec![single("X")]), Some(vec![single("Y"), single("Z")])),
        Some(vec![single("X"), single("Y"), single("Z")])
    );
    assert_eq!(join_step(Some(vec![single("X")]), Some(vec![])), Some(vec![single("X")]));
    assert_eq!(join_step(Some(vec![single("X")]), None), None);
    assert_eq!(join_step(None, Some(vec![single("Y")])), None);
}

#[test]
fn two_directives_give_their_names_in_one_list() {
    let input = TypeWrapInput::parse("#[auto_impl(X)] #[auto_impl(Y)] #[derive(Debug)] pub U { A }")
        .ok()
        .unwrap();
    assert_eq!(input.attrs, vec!["# [derive (Debug)]".to_string()]);
    assert_eq!(names(&input), vec!["X", "Y"]);
    assert_eq!(variants(&input), vec!["A"]);
}

#[test]
fn a_trailing_comma_adds_no_variant() {
    let input = TypeWrapInput::parse("pub U { A, B, }").ok().unwrap();
    assert_eq!(variants(&input), vec!["A", "B"]);
}

#[test]
fn variants_keep_their_order_and_their_own_annotations() {
    let input = TypeWrapInput::parse("pub U { #[cfg(a)] z::Zed, Alpha }").ok().unwrap();
    assert_eq!(variants(&input), vec!["z :: Zed", "Alpha"]);
    assert_eq!(input.variants[0].attrs, vec!["# [cfg (a)]".to_string()]);
    assert_eq!(input.variants[1].attrs, Vec::<String>::new());
}

#[test]
fn a_declaration_without_visibility_is_read() {
    let input = TypeWrapInput::parse("#[derive(Clone)] U { A }").ok().unwrap();
    assert_eq!(input.vis, "");
    assert_eq!(input.ident, "U");
    assert_eq!(input.attrs, vec!["# [derive (Clone)]".to_string()]);
    assert_eq!(input.auto_impls.len(), 0);
    assert_eq!(variants(&input), vec!["A"]);
}
