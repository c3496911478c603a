use herdr::pane_title::{expand, parse, references, Segment, TitleFacts, TitleField};

#[test]
fn references_finds_fields_inside_groups_only_when_present() {
    let segments = parse("$dir( $branch$git_status)").expect("parse");
    assert!(references(&segments, TitleField::Dir));
    assert!(references(&segments, TitleField::Branch));
    assert!(references(&segments, TitleField::GitStatus));
    assert!(!references(&segments, TitleField::AheadBehind));
    assert!(!references(&[], TitleField::Dir));
}

fn facts() -> TitleFacts {
    TitleFacts {
        dir: "herdr".into(),
        cwd: "~/code/herdr".into(),
        process: "nvim".into(),
        agent: "codex".into(),
        branch: "main".into(),
        ahead_behind: "↑2".into(),
        git_status: "*".into(),
        zoom: "Z".into(),
        label: "build".into(),
    }
}

fn expand_str(input: &str, facts: &TitleFacts) -> String {
    expand(&parse(input).expect("parse"), facts)
}

#[test]
fn each_variable_expands() {
    let f = facts();
    assert_eq!(expand_str("$dir", &f), "herdr");
    assert_eq!(expand_str("$cwd", &f), "~/code/herdr");
    assert_eq!(expand_str("$process", &f), "nvim");
    assert_eq!(expand_str("$agent", &f), "codex");
    assert_eq!(expand_str("$branch", &f), "main");
    assert_eq!(expand_str("$ahead_behind", &f), "↑2");
    assert_eq!(expand_str("$git_status", &f), "*");
    assert_eq!(expand_str("$zoom", &f), "Z");
    assert_eq!(expand_str("$label", &f), "build");
}

#[test]
fn braced_variable_expands() {
    let f = facts();
    assert_eq!(expand_str("${dir}", &f), "herdr");
    // Braces delimit the name so adjacent text is not swallowed.
    assert_eq!(expand_str("${dir}x", &f), "herdrx");
    assert_eq!(expand_str("${branch}_${dir}", &f), "main_herdr");
}

#[test]
fn literals_and_variables_interleave() {
    let f = facts();
    assert_eq!(expand_str("$dir $process", &f), "herdr nvim");
    assert_eq!(expand_str("[$agent]", &f), "[codex]");
}

#[test]
fn empty_field_expands_empty() {
    let mut f = facts();
    f.process = String::new();
    assert_eq!(expand_str("$dir$process", &f), "herdr");
}

#[test]
fn group_drops_when_all_vars_empty() {
    let mut f = facts();
    f.branch = String::new();
    f.ahead_behind = String::new();
    f.git_status = String::new();
    assert_eq!(
        expand_str("$dir( ⋅ $branch$ahead_behind$git_status)", &f),
        "herdr"
    );
}

#[test]
fn group_renders_when_any_var_present() {
    let mut f = facts();
    f.ahead_behind = String::new();
    f.git_status = String::new();
    // branch is still set, so the whole group (separator included) stays.
    assert_eq!(
        expand_str("$dir( ⋅ $branch$ahead_behind$git_status)", &f),
        "herdr ⋅ main"
    );
}

#[test]
fn nested_groups() {
    let mut f = facts();
    f.branch = "main".into();
    f.ahead_behind = String::new();
    f.git_status = String::new();
    // Outer group renders (branch set); inner group drops (counts empty).
    assert_eq!(
        expand_str("$dir( on $branch( $ahead_behind$git_status))", &f),
        "herdr on main"
    );

    // Inner non-empty keeps both groups.
    f.ahead_behind = "↑1".into();
    assert_eq!(
        expand_str("$dir( on $branch( $ahead_behind$git_status))", &f),
        "herdr on main ↑1"
    );
}

#[test]
fn group_without_variables_never_renders() {
    let f = facts();
    // A group of pure literals has no variable to make it non-empty.
    assert_eq!(expand_str("$dir(literal)", &f), "herdr");
}

#[test]
fn escapes_resolve_to_literals() {
    let f = facts();
    assert_eq!(expand_str("\\$dir", &f), "$dir");
    assert_eq!(expand_str("\\(\\)", &f), "()");
    assert_eq!(expand_str("a\\\\b", &f), "a\\b");
    // Escaped paren is literal, not a group boundary.
    assert_eq!(expand_str("$dir \\( $branch \\)", &f), "herdr ( main )");
}

#[test]
fn user_example_outside_repo_drops_group() {
    // The user's real title; outside a repo branch/ahead/status are empty.
    let mut f = TitleFacts {
        dir: "scratch".into(),
        process: "zsh".into(),
        ..TitleFacts::default()
    };
    assert_eq!(
        expand_str("$dir $process( ⋅ $branch$ahead_behind$git_status)", &f),
        "scratch zsh"
    );
    // Inside a repo the group appears.
    f.branch = "main".into();
    assert_eq!(
        expand_str("$dir $process( ⋅ $branch$ahead_behind$git_status)", &f),
        "scratch zsh ⋅ main"
    );
}

#[test]
fn empty_format_parses_to_no_segments() {
    assert_eq!(parse("").expect("parse"), Vec::new());
}

#[test]
fn unknown_variable_is_error() {
    let err = parse("$bogus").expect_err("should fail");
    assert!(err.message().contains("bogus"), "{}", err.message());
}

#[test]
fn unknown_braced_variable_is_error() {
    assert!(parse("${nope}").is_err());
}

#[test]
fn unbalanced_open_paren_is_error() {
    assert!(parse("$dir (oops").is_err());
}

#[test]
fn unbalanced_close_paren_is_error() {
    assert!(parse("oops)").is_err());
}

#[test]
fn unterminated_brace_is_error() {
    assert!(parse("${dir").is_err());
}

#[test]
fn empty_variable_name_is_error() {
    assert!(parse("$ ").is_err());
    assert!(parse("${}").is_err());
}

#[test]
fn invalid_escape_is_error() {
    assert!(parse("\\n").is_err());
    assert!(parse("trailing\\").is_err());
}

#[test]
fn adjacent_literal_text_coalesces_into_one_segment() {
    let segments = parse("a\\(b$dir(x\\)y${cwd}z)").expect("parse");
    assert_eq!(
        segments,
        vec![
            Segment::Literal("a(b".into()),
            Segment::Var(TitleField::Dir),
            Segment::Group(vec![
                Segment::Literal("x)y".into()),
                Segment::Var(TitleField::Cwd),
                Segment::Literal("z".into()),
            ]),
        ]
    );
}

#[test]
fn expansion_reads_only_referenced_fields() {
    let segments = parse("$dir($branch)").expect("parse");
    let mut other = facts();
    other.process = "zsh".into();
    other.agent = String::new();
    assert_eq!(expand(&segments, &facts()), expand(&segments, &other));
    assert!(!references(&segments, TitleField::Process));
}
