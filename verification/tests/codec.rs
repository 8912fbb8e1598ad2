use sshmenu::profile::HostEntry;

fn host(name: &str) -> HostEntry {
    HostEntry::named(name.to_string())
}

fn text(s: &str) -> Option<String> {
    Some(s.to_string())
}

#[test]
fn parses_a_host_with_two_fields() {
    let hosts = HostEntry::parse_ssh_config("Host box\n    HostName 1.2.3.4\n    User bob\n\n");
    assert_eq!(hosts.len(), 1);
    let mut expected = host("box");
    expected.hostname = text("1.2.3.4");
    expected.user = text("bob");
    assert_eq!(hosts[0], expected);
    assert_eq!(hosts[0].port, None);
    assert_eq!(hosts[0].identity_file, None);
    assert_eq!(hosts[0].proxy_jump, None);
    assert_eq!(hosts[0].forward_agent, None);
    assert_eq!(hosts[0].password, None);
}

#[test]
fn serializing_the_parsed_host_reproduces_the_text() {
    let input = "Host box\n    HostName 1.2.3.4\n    User bob\n\n";
    let hosts = HostEntry::parse_ssh_config(input);
    assert_eq!(HostEntry::serialize_ssh_config(&hosts), input);
}

#[test]
fn serializes_every_field_in_the_fixed_order() {
    let mut h = host("db1");
    h.password = text("s3cret");
    h.forward_agent = text("yes");
    h.proxy_jump = text("bastion");
    h.identity_file = text("~/.ssh/id_ed25519");
    h.port = text("2222");
    h.user = text("alice");
    h.hostname = text("10.0.0.7");
    let out = HostEntry::serialize_ssh_config(&[h]);
    assert_eq!(
        out,
        "Host db1\n    HostName 10.0.0.7\n    User alice\n    Port 2222\n    IdentityFile ~/.ssh/id_ed25519\n    ProxyJump bastion\n    ForwardAgent yes\n    # Password s3cret\n\n"
    );
}

#[test]
fn serializes_nothing_for_no_hosts() {
    assert_eq!(HostEntry::serialize_ssh_config(&[]), "");
}

#[test]
fn serializing_omits_fields_that_are_not_set() {
    let mut h = host("a");
    h.port = text("22");
    assert_eq!(HostEntry::serialize_ssh_config(&[h, host("b")]), "Host a\n    Port 22\n\nHost b\n\n");
}

#[test]
fn round_trip_keeps_order_values_and_unset_fields() {
    let mut a = host("alpha");
    a.hostname = text("alpha.example.org");
    a.identity_file = text("C:\\Users\\me\\.ssh\\id rsa");
    let b = host("beta");
    let mut c = host("gamma delta");
    c.user = text("root");
    c.port = text("22");
    c.proxy_jump = text("alpha");
    c.forward_agent = text("no");
    c.password = text("p w");
    let hosts = vec![a, b, c];
    let parsed = HostEntry::parse_ssh_config(&HostEntry::serialize_ssh_config(&hosts));
    assert_eq!(parsed, hosts);
}

#[test]
fn round_trip_of_no_hosts_is_no_hosts() {
    let parsed = HostEntry::parse_ssh_config(&HostEntry::serialize_ssh_config(&[]));
    assert!(parsed.is_empty());
}

#[test]
fn a_value_with_white_space_at_an_end_comes_back_trimmed() {
    let mut h = host("a");
    h.user = text(" bob ");
    let parsed = HostEntry::parse_ssh_config(&HostEntry::serialize_ssh_config(&[h]));
    assert_eq!(parsed.len(), 1);
    assert_eq!(parsed[0].user, text("bob"));
}

#[test]
fn text_without_host_declarations_holds_no_profile() {
    assert!(HostEntry::parse_ssh_config("").is_empty());
    assert!(HostEntry::parse_ssh_config("\n\n\n").is_empty());
    assert!(HostEntry::parse_ssh_config("User bob\nPort 22\n# a comment\nHostName x\n").is_empty());
    assert!(HostEntry::parse_ssh_config("Host\nHostess x\nhost lower\n").is_empty());
}

#[test]
fn arbitrary_text_is_accepted() {
    let hosts = HostEntry::parse_ssh_config("\u{0}\u{1}\r\r\n\t\tHost\u{3000}x\u{85}\n===\nUser\n");
    assert_eq!(hosts.len(), 1);
    assert_eq!(hosts[0].name, "x");
    assert_eq!(hosts[0].user, text(""));
}

#[test]
fn a_trailing_entry_without_line_feed_is_kept() {
    let hosts = HostEntry::parse_ssh_config("Host a\n  User x\nHost b\n  Port 7");
    assert_eq!(hosts.len(), 2);
    assert_eq!(hosts[0].name, "a");
    assert_eq!(hosts[0].user, text("x"));
    assert_eq!(hosts[1].name, "b");
    assert_eq!(hosts[1].port, text("7"));
}

#[test]
fn a_final_line_feed_changes_nothing() {
    let t = "Host a\n  User x\nHost b";
    let with = format!("{}\n", t);
    assert_eq!(HostEntry::parse_ssh_config(t), HostEntry::parse_ssh_config(&with));
}

#[test]
fn field_lines_before_the_first_host_are_ignored() {
    let hosts = HostEntry::parse_ssh_config("User early\nPort 1\nHost a\nUser late\n");
    assert_eq!(hosts.len(), 1);
    assert_eq!(hosts[0].user, text("late"));
    assert_eq!(hosts[0].port, None);
}

#[test]
fn a_host_declaration_resets_the_optional_fields() {
    let hosts = HostEntry::parse_ssh_config("Host a\nUser x\nPort 9\nHost b\n");
    assert_eq!(hosts.len(), 2);
    assert_eq!(hosts[1], host("b"));
}

#[test]
fn unknown_lines_are_dropped_on_a_round_trip() {
    let hosts = HostEntry::parse_ssh_config(
        "# my hosts\nHost a\n    Compression yes\n    User x\n    LocalForward 1 2\n",
    );
    assert_eq!(HostEntry::serialize_ssh_config(&hosts), "Host a\n    User x\n\n");
}

#[test]
fn the_keyword_host_needs_white_space_after_it() {
    let hosts = HostEntry::parse_ssh_config("Host\tbox\nHostbox\nHost   spaced   \n");
    assert_eq!(hosts.len(), 2);
    assert_eq!(hosts[0].name, "box");
    assert_eq!(hosts[1].name, "spaced");
}

#[test]
fn field_keywords_are_prefixes_and_case_sensitive() {
    let hosts = HostEntry::parse_ssh_config("Host a\nHostNamefoo\nuser low\nUSER up\nUsers x\n");
    assert_eq!(hosts.len(), 1);
    assert_eq!(hosts[0].hostname, text("foo"));
    assert_eq!(hosts[0].user, text("s x"));
}

#[test]
fn the_password_is_read_as_directive_and_as_comment() {
    let hosts = HostEntry::parse_ssh_config("Host a\nPassword one\nHost b\n  # Password two\n");
    assert_eq!(hosts[0].password, text("one"));
    assert_eq!(hosts[1].password, text("two"));
    assert_eq!(
        HostEntry::serialize_ssh_config(&hosts),
        "Host a\n    # Password one\n\nHost b\n    # Password two\n\n"
    );
}

#[test]
fn a_later_line_overrides_an_earlier_one() {
    let hosts = HostEntry::parse_ssh_config("Host a\nPort 1\nPort 2\n");
    assert_eq!(hosts[0].port, text("2"));
}

#[test]
fn carriage_returns_at_line_ends_are_trimmed() {
    let hosts = HostEntry::parse_ssh_config("Host a\r\n    User b\r\n\r\nHost c\r\n");
    assert_eq!(hosts.len(), 2);
    assert_eq!(hosts[0].name, "a");
    assert_eq!(hosts[0].user, text("b"));
    assert_eq!(hosts[1].name, "c");
}

#[test]
fn reads_proxy_jump_and_forward_agent() {
    let hosts = HostEntry::parse_ssh_config("Host a\n  ProxyJump gate\n  ForwardAgent yes\n  IdentityFile k\n");
    assert_eq!(hosts[0].proxy_jump, text("gate"));
    assert_eq!(hosts[0].forward_agent, text("yes"));
    assert_eq!(hosts[0].identity_file, text("k"));
}

#[test]
fn values_keep_inner_white_space_and_lose_outer() {
    let hosts = HostEntry::parse_ssh_config("Host   my box \n  User \u{a0} a  b \t\n");
    assert_eq!(hosts[0].name, "my box");
    assert_eq!(hosts[0].user, text("a  b"));
}

#[test]
fn every_parsed_profile_has_a_name() {
    let hosts = HostEntry::parse_ssh_config("Host a\nHost \nHost\u{a0}\nHost  b\nHost");
    assert_eq!(hosts.len(), 2);
    assert!(hosts.iter().all(|h| h.has_name()));
}
