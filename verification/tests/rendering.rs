use revset_explain::expr::Expr;
use revset_explain::expr::Predicate;
use revset_explain::expr::ResolvedReference;
use revset_explain::parse::ReferenceMap;
use revset_explain::pattern::FilesetExpression;
use revset_explain::pattern::RevsetFilterPredicate;
use revset_explain::render::plain_text;
use revset_explain::render::pretty_print;
use revset_explain::render::Color;
use revset_explain::render::Segment;
use revset_explain::render::Style;
use revset_explain::resolved::CommitId;
use revset_explain::resolved::ResolvedExpression;
use revset_explain::tree::AnalyzeContext;
use revset_explain::tree::Node;

const PLAIN: Style = Style { color: Color::Normal, bold: false, dimmed: false };
const DIMMED: Style = Style { color: Color::Normal, bold: false, dimmed: true };

fn symbol(name: &str) -> Expr<'static> {
    Expr::Reference(ResolvedReference::new_owned(name.to_string()))
}

fn boxed(expr: Expr<'static>) -> Box<Expr<'static>> {
    Box::new(expr)
}

fn text(expr: &Expr<'_>, context: AnalyzeContext, analyze: bool) -> String {
    plain_text(&pretty_print(expr, context, analyze))
}

fn pieces(segments: &[Segment]) -> Vec<(&str, Style)> {
    segments.iter().map(|segment| (segment.text.as_str(), segment.style)).collect()
}

fn name(color: Color, bold: bool) -> Style {
    Style { color, bold, dimmed: false }
}

#[test]
fn the_visible_heads_alone_render_as_their_text() {
    let mut table = ReferenceMap::new();
    let heads = table.insert(ResolvedReference::visible_heads());
    let expr = Expr::parse(ResolvedExpression::Commits(vec![heads]), &table);
    for analyze in [false, true] {
        let segments = pretty_print(&expr, AnalyzeContext::Lazy, analyze);
        assert_eq!(pieces(&segments), vec![("visible_heads()", PLAIN), ("\n", PLAIN)]);
        assert_eq!(plain_text(&segments), "visible_heads()\n");
    }
}

#[test]
fn a_union_of_two_symbols_renders_as_a_bracketed_list() {
    let mut table = ReferenceMap::new();
    let main = table.insert(ResolvedReference::new_owned("main".to_string()));
    let dev = table.insert(ResolvedReference::new_owned("dev".to_string()));
    let expr = Expr::parse(
        ResolvedExpression::Union(
            Box::new(ResolvedExpression::Commits(vec![main])),
            Box::new(ResolvedExpression::Commits(vec![dev])),
        ),
        &table,
    );
    let segments = pretty_print(&expr, AnalyzeContext::Lazy, false);
    assert_eq!(plain_text(&segments), "Union [\n  main\n  dev\n]\n");
    assert_eq!(
        pieces(&segments),
        vec![
            ("Union", name(Color::Blue, true)),
            (" [", DIMMED),
            ("\n", PLAIN),
            ("  ", PLAIN),
            ("main", PLAIN),
            ("\n", PLAIN),
            ("  ", PLAIN),
            ("dev", PLAIN),
            ("\n", PLAIN),
            ("", PLAIN),
            ("]", DIMMED),
            ("\n", PLAIN),
        ]
    );
    assert!(!plain_text(&segments).contains("(EXPENSIVE)"));
}

#[test]
fn labeled_children_stand_in_braces() {
    let expr = Expr::Difference(boxed(symbol("a")), boxed(symbol("b")));
    assert_eq!(
        text(&expr, AnalyzeContext::Lazy, true),
        "Difference {\n  candidates: a\n  excluded: b\n}\n"
    );
    let segments = pretty_print(&expr, AnalyzeContext::Lazy, true);
    assert_eq!(
        pieces(&segments),
        vec![
            ("Difference", name(Color::BrightCyan, true)),
            (" {", DIMMED),
            ("\n", PLAIN),
            ("  ", PLAIN),
            ("candidates:", DIMMED),
            (" ", PLAIN),
            ("a", PLAIN),
            ("\n", PLAIN),
            ("  ", PLAIN),
            ("excluded:", DIMMED),
            (" ", PLAIN),
            ("b", PLAIN),
            ("\n", PLAIN),
            ("", PLAIN),
            ("}", DIMMED),
            ("\n", PLAIN),
        ]
    );
}

#[test]
fn a_single_operand_stands_in_round_brackets() {
    let expr = Expr::Heads(boxed(symbol("a")));
    assert_eq!(text(&expr, AnalyzeContext::Lazy, false), "Heads(\n  a\n)\n");
    let one = Expr::Union(vec![symbol("a")]);
    assert_eq!(text(&one, AnalyzeContext::Lazy, false), "Union(\n  a\n)\n");
}

#[test]
fn a_list_without_operands_has_no_brackets() {
    let none = Expr::Union(vec![]);
    let segments = pretty_print(&none, AnalyzeContext::Eager, true);
    assert_eq!(pieces(&segments), vec![("Union", name(Color::BrightBlue, false)), ("\n", PLAIN)]);
}

#[test]
fn children_are_indented_by_two_spaces_a_level() {
    let expr = Expr::Heads(boxed(Expr::Union(vec![
        Expr::Roots(boxed(symbol("a"))),
        symbol("b"),
    ])));
    assert_eq!(
        text(&expr, AnalyzeContext::Lazy, false),
        "Heads(\n  Union [\n    Roots(\n      a\n    )\n    b\n  ]\n)\n"
    );
}

#[test]
fn names_are_colored_by_their_context() {
    let expr = Expr::Reachable {
        sources: boxed(Expr::Intersection(vec![symbol("a"), symbol("b")])),
        domain: boxed(Expr::Union(vec![symbol("c"), symbol("d")])),
    };
    let segments = pretty_print(&expr, AnalyzeContext::Lazy, true);
    let colors: Vec<(&str, Color)> = segments
        .iter()
        .filter(|segment| {
            !segment.style.dimmed && !segment.text.trim().is_empty()
        })
        .map(|segment| (segment.text.as_str(), segment.style.color))
        .collect();
    assert_eq!(
        colors,
        vec![
            ("Reachable", Color::BrightBlue),
            ("Intersection", Color::BrightMagenta),
            ("a", Color::Normal),
            ("b", Color::Normal),
            ("Union", Color::BrightBlue),
            ("c", Color::Normal),
            ("d", Color::Normal),
        ]
    );
    let segments = pretty_print(&expr, AnalyzeContext::Lazy, false);
    let colors: Vec<(&str, Color)> = segments
        .iter()
        .filter(|segment| {
            !segment.style.dimmed && !segment.text.trim().is_empty()
        })
        .map(|segment| (segment.text.as_str(), segment.style.color))
        .collect();
    assert_eq!(
        colors,
        vec![
            ("Reachable", Color::Blue),
            ("Intersection", Color::Blue),
            ("a", Color::Normal),
            ("b", Color::Normal),
            ("Union", Color::Blue),
            ("c", Color::Normal),
            ("d", Color::Normal),
        ]
    );
}

#[test]
fn lazy_names_are_cyan() {
    let expr = Expr::Union(vec![symbol("a"), symbol("b")]);
    let segments = pretty_print(&expr, AnalyzeContext::Lazy, true);
    assert_eq!(segments[0].text, "Union");
    assert_eq!(segments[0].style, name(Color::BrightCyan, true));
    let segments = pretty_print(&expr, AnalyzeContext::Resolved, false);
    assert_eq!(segments[0].style, name(Color::Normal, true));
}

#[test]
fn expensive_nodes_are_marked_when_analyzed() {
    let expr = Expr::Ancestors {
        heads: boxed(Expr::Reference(ResolvedReference::visible_heads())),
        generation: 0..20000,
        parents_range: 0..u32::MAX,
    };
    let segments = pretty_print(&expr, AnalyzeContext::Eager, true);
    assert_eq!(
        plain_text(&segments),
        "(EXPENSIVE) Ancestors {\n  generation: 0..20000\n  heads: visible_heads()\n}\n"
    );
    assert_eq!(
        pieces(&segments)[..4],
        [
            ("(EXPENSIVE)", Style { color: Color::BrightRed, bold: true, dimmed: false }),
            (" ", PLAIN),
            ("Ancestors", name(Color::BrightBlue, true)),
            (" {", DIMMED),
        ]
    );
    assert_eq!(
        text(&expr, AnalyzeContext::Eager, false),
        "Ancestors {\n  generation: 0..20000\n  heads: visible_heads()\n}\n"
    );
    assert_eq!(
        text(&expr, AnalyzeContext::Lazy, true),
        "Ancestors {\n  generation: 0..20000\n  heads: visible_heads()\n}\n"
    );
}

#[test]
fn children_are_costed_in_their_own_context() {
    let slow = || Expr::Ancestors {
        heads: boxed(symbol("a")),
        generation: 0..u64::MAX,
        parents_range: 0..u32::MAX,
    };
    let heads = Expr::Heads(boxed(slow()));
    assert_eq!(
        text(&heads, AnalyzeContext::Lazy, true),
        "Heads(\n  (EXPENSIVE) Ancestors {\n    heads: a\n  }\n)\n"
    );
    let intersection = Expr::Intersection(vec![slow(), slow()]);
    assert_eq!(
        text(&intersection, AnalyzeContext::Eager, true),
        "(EXPENSIVE) Intersection [\n  Ancestors {\n    heads: a\n  }\n  Ancestors {\n    heads: a\n  }\n]\n"
    );
}

#[test]
fn predicates_render_with_their_canonical_texts() {
    let expr = Expr::FilterWithin {
        candidates: boxed(symbol("a")),
        predicate: Predicate::Intersection(vec![
            Predicate::Filter(RevsetFilterPredicate::ParentCount(2..u32::MAX)),
            Predicate::Filter(RevsetFilterPredicate::File(FilesetExpression::All)),
            Predicate::NotIn(Box::new(Predicate::Filter(RevsetFilterPredicate::File(
                FilesetExpression::All,
            )))),
            Predicate::NotIn(Box::new(Predicate::InSet(boxed(symbol("b"))))),
        ]),
    };
    assert_eq!(
        text(&expr, AnalyzeContext::Lazy, true),
        "FilterWithin {\n  candidates: a\n  predicate: Intersection [\n    merges()\n    ~empty()\n    empty()\n    NotIn(\n      b\n    )\n  ]\n}\n"
    );
}

#[test]
fn counts_and_ranges_render_as_numbers() {
    let expr = Expr::Latest {
        candidates: boxed(Expr::Ancestors {
            heads: boxed(symbol("a")),
            generation: 2..3,
            parents_range: 0..1,
        }),
        count: 10,
    };
    assert_eq!(
        text(&expr, AnalyzeContext::Lazy, false),
        "Latest {\n  count: 10\n  candidates: Ancestors {\n    generation: 2\n    parent_index: 0\n    heads: a\n  }\n}\n"
    );
}

#[test]
fn every_kind_of_node_can_be_rendered() {
    let main = symbol("main");
    assert_eq!(plain_text(&pretty_print(&Node::Expr(&main), AnalyzeContext::Lazy, true)), "main\n");
    assert_eq!(
        plain_text(&pretty_print(&ResolvedReference::root(), AnalyzeContext::Lazy, true)),
        "root()\n"
    );
    assert_eq!(plain_text(&pretty_print(&5usize, AnalyzeContext::Lazy, true)), "5\n");
    assert_eq!(plain_text(&pretty_print(&(1..4u64), AnalyzeContext::Lazy, true)), "1..4\n");
    assert_eq!(plain_text(&pretty_print(&(1..4u32), AnalyzeContext::Lazy, true)), "1..4\n");
    let signed = Predicate::Filter(RevsetFilterPredicate::Signed);
    let segments = pretty_print(&signed, AnalyzeContext::Lazy, true);
    assert_eq!(pieces(&segments), vec![("signed()", name(Color::BrightMagenta, false)), ("\n", PLAIN)]);
}

#[test]
fn plain_text_joins_the_segments() {
    let segments = vec![
        Segment { text: "a".to_string(), style: PLAIN },
        Segment { text: String::new(), style: DIMMED },
        Segment { text: "bc\n".to_string(), style: DIMMED },
    ];
    assert_eq!(plain_text(&segments), "abc\n");
    assert_eq!(plain_text(&Vec::new()), "");
}

#[test]
fn an_import_renders_end_to_end() {
    let mut table = ReferenceMap::new();
    let root = table.insert(ResolvedReference::root());
    let heads = table.insert(ResolvedReference::visible_heads());
    let main = table.insert(ResolvedReference::new_owned("main".to_string()));
    let again = CommitId::from_bytes(main.as_bytes());
    let tree = ResolvedExpression::Range {
        roots: Box::new(ResolvedExpression::Commits(vec![root])),
        heads: Box::new(ResolvedExpression::Union(
            Box::new(ResolvedExpression::Commits(vec![heads, main])),
            Box::new(ResolvedExpression::Heads(Box::new(ResolvedExpression::Commits(vec![again])))),
        )),
        generation: 0..u64::MAX,
        parents_range: 0..u32::MAX,
    };
    let expr = Expr::parse(tree, &table);
    assert_eq!(
        text(&expr, AnalyzeContext::Eager, true),
        "(EXPENSIVE) Range {\n  roots: root()\n  heads: Union [\n    visible_heads() and referenced revisions\n    Heads(\n      main\n    )\n  ]\n}\n"
    );
}
