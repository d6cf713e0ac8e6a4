use loghound::config::FilterConfig;
use loghound::filter::Filter;

fn cfg(names: &[&str], pids: &[u32]) -> FilterConfig {
    FilterConfig {
        process_names: names.iter().map(|s| s.to_string()).collect(),
        pids: pids.to_vec(),
    }
}

#[test]
fn empty_filter_passes_all() {
    let f = Filter::new(&cfg(&[], &[]));
    assert!(f.is_pass_all());
    assert!(f.allows(123, Some("anything.exe")));
    assert!(f.allows(456, None));
}

#[test]
fn matches_by_name_case_insensitive() {
    let f = Filter::new(&cfg(&["MyApp.exe"], &[]));
    assert!(f.allows(1, Some("myapp.exe")));
    assert!(f.allows(1, Some("MYAPP.EXE")));
    assert!(!f.allows(1, Some("other.exe")));
    assert!(!f.allows(1, None));
}

#[test]
fn matches_by_pid() {
    let f = Filter::new(&cfg(&[], &[42]));
    assert!(f.allows(42, None));
    assert!(!f.allows(43, Some("x.exe")));
}

#[test]
fn name_or_pid_either_matches() {
    let f = Filter::new(&cfg(&["a.exe"], &[42]));
    assert!(f.allows(42, Some("z.exe")));
    assert!(f.allows(1, Some("a.exe")));
    assert!(!f.allows(1, Some("z.exe")));
}

#[test]
fn blank_names_are_ignored() {
    let f = Filter::new(&cfg(&["  "], &[]));
    assert!(f.is_pass_all());
}

#[test]
fn configured_names_are_trimmed() {
    let f = Filter::new(&cfg(&["  Tool.EXE\t", ""], &[]));
    assert!(!f.is_pass_all());
    assert!(f.allows(7, Some("tool.exe")));
    assert!(!f.allows(7, Some(" tool.exe")));
}

#[test]
fn blank_names_with_pids_still_filter() {
    let f = Filter::new(&cfg(&[" "], &[9]));
    assert!(!f.is_pass_all());
    assert!(f.allows(9, None));
    assert!(!f.allows(8, Some("x")));
}
