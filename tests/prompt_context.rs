use vsh::hint::{color_of_lowered, hint_look, Emphasis, HintColor};
use vsh::alias::AliasTable;
use vsh::builtin::{Builtin, Cd};
use vsh::command::Instruction;
use vsh::config::{get_alias, Config, Misc};
use vsh::eval::CommandError;
use vsh::format::styled_pieces;
use vsh::prompt::{BranchInfo, Context, DirectoryContext, PromptInfo, SessionContext, SubContext, ThemeContext};
use vsh::theme::{parse_theme, Color, Span, Styles};

#[test]
fn alias_table_keeps_the_last_entry() {
    let mut t = AliasTable::new();
    assert!(t.get("ll").is_none());
    t.insert("ll".to_string(), "ls -l".to_string());
    t.insert("la".to_string(), "ls -a".to_string());
    t.insert("ll".to_string(), "ls -la".to_string());
    assert_eq!(t.get("ll").unwrap(), "ls -la");
    assert_eq!(t.get("la").unwrap(), "ls -a");
    assert!(t.get("LL").is_none());
}

#[test]
fn aliases_come_from_the_misc_section() {
    let config = Config {
        prompt: None,
        misc: Some(Misc {
            alias: Some(vec![
                ["ll".to_string(), "ls -la".to_string()],
                ["g".to_string(), "git".to_string()],
                ["ll".to_string(), "ls -l".to_string()],
            ]),
        }),
        effects: None,
    };
    let t = get_alias(&config);
    assert_eq!(t.get("ll").unwrap(), "ls -l");
    assert_eq!(t.get("g").unwrap(), "git");
    let empty = Config { prompt: None, misc: None, effects: None };
    assert!(get_alias(&empty).get("ll").is_none());
}

#[test]
fn prompt_info_records_statuses() {
    let mut info = PromptInfo::new(false, None);
    info.record(&Err(CommandError::NonZero(3)));
    assert!(!info.terminated);
    assert_eq!(info.exit_code, Some(3));
    info.record(&Err(CommandError::Signaled));
    assert!(info.terminated);
    assert_eq!(info.exit_code, None);
    info.record(&Err(CommandError::RequestExit(Some(1))));
    assert!(info.terminated);
    info.record(&Ok(()));
    assert!(!info.terminated);
    assert_eq!(info.exit_code, None);
    info.exit_code = Some(9);
    info.default();
    assert_eq!(info.exit_code, None);
}

#[test]
fn prompt_info_variables() {
    let vars = PromptInfo::new(false, Some(-42)).retrieve_var();
    assert_eq!(vars[0], ("terminated".to_string(), "false".to_string()));
    assert_eq!(vars[1], ("exit_code".to_string(), "-42".to_string()));
    let vars = PromptInfo::new(true, None).retrieve_var();
    assert_eq!(vars[0].1, "true");
    assert_eq!(vars[1].1, "");
    let vars = PromptInfo::new(false, Some(2147483647)).retrieve_var();
    assert_eq!(vars[1].1, "2147483647");
}

#[test]
fn context_set_get_and_extend() {
    let mut ctx = Context::new();
    assert!(ctx.get_var("a").is_none());
    ctx.set_var("a", "1");
    ctx.set_var("b", "2");
    ctx.set_var("a", "3");
    assert_eq!(ctx.get_var("a").unwrap(), "3");
    let mut other = Context::new();
    other.set_var("b", "20");
    other.set_var("c", "30");
    ctx.extend(&other);
    assert_eq!(ctx.get_var("a").unwrap(), "3");
    assert_eq!(ctx.get_var("b").unwrap(), "20");
    assert_eq!(ctx.get_var("c").unwrap(), "30");
    ctx.from_sub_context(&DirectoryContext::new("~/src".to_string()));
    assert_eq!(ctx.get_var("current_dir").unwrap(), "~/src");
}

#[test]
fn session_variables() {
    let s = SessionContext::new(
        "Gnome".to_string(),
        "Ada L".to_string(),
        "ada".to_string(),
        "box".to_string(),
        "box.local".to_string(),
        "Linux".to_string(),
        "Debian".to_string(),
    );
    let vars = s.retrieve_var();
    assert_eq!(vars.len(), 7);
    assert_eq!(vars[2], ("username".to_string(), "ada".to_string()));
    assert_eq!(vars[6], ("distribution".to_string(), "Debian".to_string()));
}

#[test]
fn branch_info_getters() {
    let b = BranchInfo::new("main".to_string(), 4);
    assert_eq!(b.get_name(), "main");
    assert_eq!(b.get_files_changed(), 4);
}

#[test]
fn styled_pieces_follow_the_template() {
    let theme = parse_theme(Span::new("&[#FF00FF]`hello world`&[#0000FF]*[#010203]$[b]{{my_var}}"))
        .unwrap()
        .1;
    let mut ctx = Context::new();
    ctx.set_var("my_var", " from vsh");
    let pieces = match styled_pieces(&theme, &ctx) {
        Ok(p) => p,
        Err(_) => panic!("all variables are set"),
    };
    assert_eq!(pieces.len(), 2);
    assert_eq!(pieces[0].text, "hello world");
    assert_eq!(pieces[0].look.color, Color::new(255, 0, 255));
    assert_eq!(pieces[0].look.background, None);
    assert_eq!(pieces[0].look.style, Styles::Clear);
    assert_eq!(pieces[1].text, " from vsh");
    assert_eq!(pieces[1].look.color, Color::new(0, 0, 255));
    assert_eq!(pieces[1].look.background, Some(Color::new(1, 2, 3)));
    assert_eq!(pieces[1].look.style, Styles::Bold);
}

#[test]
fn styled_pieces_report_a_missing_variable() {
    let theme = parse_theme(Span::new("`a`{{x}}{{y}}")).unwrap().1;
    let ctx = Context::new();
    match styled_pieces(&theme, &ctx) {
        Ok(_) => panic!("x is not set"),
        Err(e) => {
            assert_eq!(e.var_name, "x");
            assert_eq!(e.message(), "Format error: variable x not found");
        }
    }
}

#[test]
fn cd_describes_itself() {
    assert_eq!(Cd::name(), "cd");
    assert_eq!(
        Cd.help(),
        "cd\nAbout: \nA command line program for changing working directory\nExamples: \n1. cd\n2. cd ~/Downloads\n3. cd .."
    );
    match Cd::run(vec!["/tmp".to_string(), "x".to_string()]) {
        Instruction::ChangeDirectory(Some(d)) => assert_eq!(d, "/tmp"),
        _ => panic!("cd changes directory"),
    }
    assert!(matches!(Cd::run(vec![]), Instruction::ChangeDirectory(None)));
}

#[test]
fn date_time_variables() {
    let d = vsh::prompt::DateTimeContext {
        prefix: "utc".to_string(),
        second: 5,
        minute: 30,
        hour12: 1,
        pm: true,
        hour: 13,
        day: 9,
        month: 11,
        year: 2024,
        ordinal: 314,
        weekday: "Sat".to_string(),
    };
    let vars = d.retrieve_var();
    assert_eq!(vars.len(), 10);
    assert_eq!(vars[0], ("utc_ss".to_string(), "5".to_string()));
    assert_eq!(vars[2], ("utc_hh12".to_string(), "1".to_string()));
    assert_eq!(vars[3], ("utc_AMPM".to_string(), "PM".to_string()));
    assert_eq!(vars[4], ("utc_hh24".to_string(), "13".to_string()));
    assert_eq!(vars[7], ("utc_YYYY".to_string(), "2024".to_string()));
    assert_eq!(vars[8], ("utc_ord".to_string(), "314".to_string()));
    assert_eq!(vars[9], ("utc_wday".to_string(), "Sat".to_string()));
}

fn effects(
    underlined: Option<bool>,
    bold: Option<bool>,
    color: Option<&str>,
    truecolors: Option<bool>,
    rgb: Option<[u8; 3]>,
) -> Option<vsh::config::EffectsCtx> {
    Some(vsh::config::EffectsCtx {
        truecolors,
        underlined,
        bold,
        dimmed: Some(true),
        suggestion_color: color.map(|c| c.to_string()),
        true_suggestion_color: rgb,
    })
}

#[test]
fn hint_looks() {
    assert_eq!(hint_look(&None).color, HintColor::Red);
    assert_eq!(hint_look(&None).emphasis, Emphasis::Plain);
    let l = hint_look(&effects(Some(true), Some(true), Some("BLUE"), None, None));
    assert_eq!(l.emphasis, Emphasis::Underline);
    assert_eq!(l.color, HintColor::Blue);
    let l = hint_look(&effects(Some(false), Some(true), Some("Cyan"), Some(true), Some([1, 2, 3])));
    assert_eq!(l.emphasis, Emphasis::Bold);
    assert_eq!(l.color, HintColor::True(1, 2, 3));
    let l = hint_look(&effects(None, None, Some("mauve"), Some(false), Some([1, 2, 3])));
    assert_eq!(l.emphasis, Emphasis::Dimmed);
    assert_eq!(l.color, HintColor::Red);
    assert_eq!(color_of_lowered("purple"), HintColor::Purple);
    assert_eq!(color_of_lowered("Purple"), HintColor::Red);
}
