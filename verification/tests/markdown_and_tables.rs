use phylum_cli::filter::RiskLevel;
use phylum_cli::format::{
    format_table_colored, leftpad, risk_level_to_color, table_layout, TableColor,
};
use phylum_cli::markdown::{
    escape_markdown, generate_argument, shown_subcommand_names, visible_values, ArgInfo, CommandInfo,
    CommandTree, Generator, Markdown,
};

fn option(long: &str) -> ArgInfo {
    ArgInfo {
        hidden: false,
        short: None,
        long: Some(long.to_string()),
        min_values: 0,
        positional: false,
        required: false,
        value_names: None,
        value_delimiter: None,
        counts: false,
        help: None,
        possible_values: Vec::new(),
    }
}

#[test]
fn markdown_is_escaped() {
    assert_eq!(escape_markdown("  indented\nplain"), "&nbsp;&nbsp;indented\nplain");
    assert_eq!(escape_markdown("use `x` # here"), "use \\`x\\` \\# here");
    assert_eq!(escape_markdown("trailing\n"), "trailing");
    assert_eq!(escape_markdown(""), "");
}

#[test]
fn arguments_render_flags_values_and_help() {
    let mut arg = option("output");
    arg.short = Some('o');
    arg.value_names = Some(vec!["FILE".to_string()]);
    arg.min_values = 1;
    arg.help = Some("Where to write".to_string());
    arg.possible_values = vec!["a".to_string(), "b".to_string()];
    assert_eq!(
        generate_argument(&arg).unwrap(),
        "-o, --output <FILE>\n&emsp; Where to write\n&emsp; Accepted values: `a`, `b`"
    );

    let mut verbose = option("verbose");
    verbose.short = Some('v');
    verbose.counts = true;
    assert_eq!(generate_argument(&verbose).unwrap(), "-v, --verbose...");

    let mut pos = option("x");
    pos.long = None;
    pos.positional = true;
    pos.value_names = Some(vec!["A".to_string(), "B".to_string()]);
    pos.value_delimiter = Some(',');
    pos.min_values = 2;
    assert_eq!(generate_argument(&pos).unwrap(), "[A],[B]");
    pos.required = true;
    assert_eq!(generate_argument(&pos).unwrap(), "<A>,<B>");

    let mut hidden = option("secret");
    hidden.hidden = true;
    assert!(generate_argument(&hidden).is_none());
}

#[test]
fn command_pages() {
    let mut hidden = option("secret");
    hidden.hidden = true;
    let cmd = CommandInfo {
        name: "list".to_string(),
        about: Some("List #things".to_string()),
        usage: "phylum project list".to_string(),
        positionals: Vec::new(),
        options: vec![hidden, option("json")],
        subcommands: vec!["all".to_string()],
    };
    let page = Markdown::from_command(&cmd, vec!["phylum".to_string(), "project".to_string()]);
    assert_eq!(page.command, vec!["phylum", "project", "list"]);
    assert_eq!(
        page.content,
        "List \\#things\n\n```sh\nphylum project list\n```\n\n### Options\n\n--json\n\n### \
         Commands\n\n* [phylum project list all](./phylum_project_list_all)\n"
    );
}

#[test]
fn tables_pad_columns_to_their_widest_cell() {
    let headers = vec!["Name".to_string(), "ID".to_string()];
    let cells = vec![
        vec!["alpha".to_string(), "1".to_string()],
        vec!["b".to_string(), "22".to_string()],
    ];
    let (header, rows) = table_layout(&headers, &cells);
    assert_eq!(header, "Name   ID");
    assert_eq!(rows, vec!["alpha  1".to_string(), "b      22".to_string()]);
    assert_eq!(format_table_colored(&headers, &cells, false), "Name   ID\nalpha  1\nb      22");
    assert_eq!(
        format_table_colored(&headers, &cells, true),
        "\x1b[34mName   ID\x1b[0m\nalpha  1\nb      22"
    );
    assert_eq!(format_table_colored(&headers, &Vec::new(), false), "Name  ID\n");
}

#[test]
fn leftpad_counts_display_columns() {
    assert_eq!(leftpad("ab", 4), "ab  ");
    assert_eq!(leftpad("abcdef", 4), "abcdef");
    assert_eq!(leftpad("漢", 4), "漢  ");
}

#[test]
fn risk_levels_have_colors() {
    assert_eq!(risk_level_to_color(&RiskLevel::Critical), TableColor::BrightRed);
    assert_eq!(risk_level_to_color(&RiskLevel::High), TableColor::Yellow);
    assert_eq!(risk_level_to_color(&RiskLevel::Medium), TableColor::BrightYellow);
    assert_eq!(risk_level_to_color(&RiskLevel::Low), TableColor::Blue);
    assert_eq!(risk_level_to_color(&RiskLevel::Info), TableColor::White);
}

fn tree(name: &str, hidden: bool, subcommands: Vec<CommandTree>) -> CommandTree {
    CommandTree {
        info: CommandInfo {
            name: name.to_string(),
            about: None,
            usage: format!("phylum {name}"),
            positionals: Vec::new(),
            options: Vec::new(),
            subcommands: shown_subcommand_names(&subcommands),
        },
        hidden,
        subcommands,
    }
}

#[test]
fn generator_walks_shown_subcommands_depth_first() {
    let root = tree("phylum", false, vec![
        tree("project", false, vec![tree("list", false, Vec::new())]),
        tree("secret", true, Vec::new()),
        tree("help", false, Vec::new()),
        tree("auth", false, Vec::new()),
    ]);
    let pages = Generator::new(&root).generate();
    let commands: Vec<Vec<String>> = pages.iter().map(|p| p.command.clone()).collect();
    assert_eq!(commands, vec![
        vec!["phylum".to_string()],
        vec!["phylum".to_string(), "project".to_string()],
        vec!["phylum".to_string(), "project".to_string(), "list".to_string()],
        vec!["phylum".to_string(), "auth".to_string()],
    ]);
    assert!(pages[0].content.contains("* [phylum project](./phylum_project)"));
    assert!(!pages[0].content.contains("secret"));
}

#[test]
fn listed_subcommands_leave_out_hidden_ones_and_help() {
    let subs = vec![
        tree("project", false, Vec::new()),
        tree("secret", true, Vec::new()),
        tree("help", false, Vec::new()),
        tree("auth", false, Vec::new()),
    ];
    assert_eq!(shown_subcommand_names(&subs), vec!["project".to_string(), "auth".to_string()]);
    assert!(shown_subcommand_names(&Vec::new()).is_empty());
}

#[test]
fn hidden_values_are_not_shown() {
    let names = vec!["npm".to_string(), "internal".to_string(), "yarn".to_string()];
    assert_eq!(visible_values(&names, &vec![false, true, false]), vec!["npm".to_string(), "yarn".to_string()]);
    assert!(visible_values(&names, &vec![true, true, true]).is_empty());
}
