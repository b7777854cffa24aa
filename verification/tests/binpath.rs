use netmuxd::service::binpath::{
    build_binpath, has_service_flag, has_users_dir, is_in_user_profile, is_netmuxd_binpath,
};

fn args(list: &[&str]) -> Vec<String> {
    list.iter().map(|s| s.to_string()).collect()
}

#[test]
fn binpath_quotes_the_program() {
    assert_eq!(
        build_binpath("C:\\Program Files\\netmuxd\\netmuxd.exe", &args(&[])),
        "\"C:\\Program Files\\netmuxd\\netmuxd.exe\" --service"
    );
}

#[test]
fn binpath_quotes_arguments_with_spaces() {
    assert_eq!(
        build_binpath("n.exe", &args(&["--port", "27015", "--dir", "C:\\My Dir"])),
        "\"n.exe\" --service --port 27015 --dir \"C:\\My Dir\""
    );
}

#[test]
fn own_binpath_is_recognised() {
    assert!(is_netmuxd_binpath(&build_binpath("İ\\n.exe", &args(&["ΑΣ", "x y"]))));
    assert!(is_netmuxd_binpath("N.EXE --SERVICE"));
    assert!(is_netmuxd_binpath("\"n\" --Service-mode"));
}

#[test]
fn foreign_binpath_is_not_recognised() {
    assert!(!is_netmuxd_binpath(
        "\"C:\\Program Files\\Common Files\\Apple\\Mobile Device Support\\AppleMobileDeviceService.exe\""
    ));
    assert!(!is_netmuxd_binpath("n.exe -service"));
    assert!(!is_netmuxd_binpath(""));
}

#[test]
fn flag_is_looked_for_in_small_letters() {
    assert!(has_service_flag("n --service"));
    assert!(!has_service_flag("n --SERVICE"));
}

#[test]
fn user_profile_is_recognised() {
    assert!(is_in_user_profile("C:\\Users\\me\\netmuxd.exe"));
    assert!(is_in_user_profile("c:\\USERS\\me\\netmuxd.exe"));
    assert!(!is_in_user_profile("C:\\Program Files\\netmuxd\\netmuxd.exe"));
    assert!(!is_in_user_profile("C:\\Users"));
    assert!(has_users_dir("c:\\users\\me"));
    assert!(!has_users_dir("c:\\Users\\me"));
}

/// The arguments of a command line by the rules of Windows.
fn split(line: &str) -> Vec<String> {
    let chars: Vec<char> = line.chars().collect();
    let end = 1 + chars[1..].iter().position(|c| *c == '"').unwrap();
    let mut parts = vec![chars[1..end].iter().collect::<String>()];
    let mut part: Option<String> = None;
    let mut quoted = false;
    let mut i = end + 1;
    while i < chars.len() {
        let mut n = 0;
        while i + n < chars.len() && chars[i + n] == '\\' {
            n += 1;
        }
        let before_quote = chars.get(i + n) == Some(&'"');
        if n > 0 {
            let kept = if before_quote { n / 2 } else { n };
            part.get_or_insert_with(String::new).push_str(&"\\".repeat(kept));
            i += n;
            if before_quote && n % 2 == 1 {
                part.get_or_insert_with(String::new).push('"');
                i += 1;
            }
        } else if chars[i] == '"' {
            let text = part.get_or_insert_with(String::new);
            if quoted && chars.get(i + 1) == Some(&'"') {
                text.push('"');
                i += 1;
            } else {
                quoted = !quoted;
            }
            i += 1;
        } else if (chars[i] == ' ' || chars[i] == '\t') && !quoted {
            parts.extend(part.take());
            i += 1;
        } else {
            part.get_or_insert_with(String::new).push(chars[i]);
            i += 1;
        }
    }
    parts.extend(part);
    parts
}

#[test]
fn binpath_doubles_backslashes_before_the_closing_quote() {
    let line = build_binpath(r"C:\n.exe", &args(&[r"C:\my dir\"]));
    assert_eq!(line, r#""C:\n.exe" --service "C:\my dir\\""#);
    assert_eq!(split(&line), vec![r"C:\n.exe", "--service", r"C:\my dir\"]);
}

#[test]
fn binpath_escapes_quotes_between_quotes() {
    let line = build_binpath("n.exe", &args(&[r#"a "b\" c"#]));
    assert_eq!(line, r#""n.exe" --service "a \"b\\\" c""#);
}

#[test]
fn binpath_leaves_arguments_without_spaces_alone() {
    let line = build_binpath("n.exe", &args(&[r"C:\dir\", r"\\host\share", "-v"]));
    assert_eq!(line, r#""n.exe" --service C:\dir\ \\host\share -v"#);
}

#[test]
fn binpath_splits_into_its_arguments() {
    let list = [
        "-v",
        "x y",
        r"C:\my dir\",
        r"C:\my dir\\\",
        r"C:\dir\",
        r"\\host\a share",
        r#"say "hi" "#,
        r#"\" \\" \"#,
        r#" ""#,
        " ",
        "tab\tand space",
        r"\",
    ];
    let line = build_binpath(r"C:\a b\", &args(&list));
    let mut expected = vec![r"C:\a b\", "--service"];
    expected.extend(list);
    assert_eq!(split(&line), expected);
}

#[test]
fn capitals_are_recognised_next_to_other_letters() {
    assert!(is_netmuxd_binpath("C:\\Ünïcode\\ΣΑΣ.exe --SerVice"));
    assert!(is_in_user_profile("C:\\USERS\\Jürgen\\n.exe"));
    assert!(!is_in_user_profile("C:\\Benutzer\\Jürgen\\n.exe"));
}
