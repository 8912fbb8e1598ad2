//! The configuration format: parsing text into profiles and writing profiles
//! back as text.
//!
//! The file is a sequence of lines. A line whose trimmed content is `Host`
//! followed by white space starts a profile; an indented keyword line sets a
//! field of the profile that was started last; every other line is ignored.

use vstd::prelude::*;
use vstd::slice::slice_subrange;
use vstd::string::StringExecFns;
use crate::profile::{host_views, text_of, Field, HostEntry, HostView};
use crate::roundtrip::lemma_parse_valid;
use crate::text::{
    find_line_end, has_prefix, is_space, is_space_char, line_end, string_of, strip_prefix,
    to_chars, trim, trim_slice,
};

verus! {

/// The keyword under which a field is written to the file. The password is
/// written as an annotated comment, not as a directive.
pub open spec fn keyword(f: Field) -> Seq<char> {
    match f {
        Field::Name => "Host"@,
        Field::HostName => "HostName"@,
        Field::User => "User"@,
        Field::Port => "Port"@,
        Field::IdentityFile => "IdentityFile"@,
        Field::ProxyJump => "ProxyJump"@,
        Field::ForwardAgent => "ForwardAgent"@,
        Field::Password => "# Password"@,
    }
}

/// What a line of the file says, once it is trimmed.
pub enum Line {
    /// A host declaration, with the name it declares.
    Host(Seq<char>),
    /// A field of the current profile, with its value.
    Field(Field, Seq<char>),
    /// Anything else.
    Other,
}

/// A host declaration is the keyword `Host` followed by white space.
pub open spec fn is_host_line(t: Seq<char>) -> bool {
    let k = keyword(Field::Name);
    has_prefix(t, k) && t.len() > k.len() && is_space(t[k.len() as int])
}

/// The value on a line that begins with `k`: what follows `k`, trimmed.
pub open spec fn value_after(t: Seq<char>, k: Seq<char>) -> Seq<char> {
    trim(t.skip(k.len() as int))
}

/// Reads a trimmed line. The host declaration is tried first, then the field
/// keywords in their fixed order; the first that fits decides. The password
/// is accepted both as a directive and as an annotated comment.
pub open spec fn classify(t: Seq<char>) -> Line {
    if is_host_line(t) {
        Line::Host(value_after(t, keyword(Field::Name)))
    } else if has_prefix(t, keyword(Field::HostName)) {
        Line::Field(Field::HostName, value_after(t, keyword(Field::HostName)))
    } else if has_prefix(t, keyword(Field::User)) {
        Line::Field(Field::User, value_after(t, keyword(Field::User)))
    } else if has_prefix(t, keyword(Field::Port)) {
        Line::Field(Field::Port, value_after(t, keyword(Field::Port)))
    } else if has_prefix(t, keyword(Field::IdentityFile)) {
        Line::Field(Field::IdentityFile, value_after(t, keyword(Field::IdentityFile)))
    } else if has_prefix(t, keyword(Field::ProxyJump)) {
        Line::Field(Field::ProxyJump, value_after(t, keyword(Field::ProxyJump)))
    } else if has_prefix(t, keyword(Field::ForwardAgent)) {
        Line::Field(Field::ForwardAgent, value_after(t, keyword(Field::ForwardAgent)))
    } else if has_prefix(t, "Password"@) {
        Line::Field(Field::Password, value_after(t, "Password"@))
    } else if has_prefix(t, keyword(Field::Password)) {
        Line::Field(Field::Password, value_after(t, keyword(Field::Password)))
    } else {
        Line::Other
    }
}

/// The parser's state between two lines: the profiles that are complete, and
/// the one under construction.
pub struct ParseState {
    pub done: Seq<HostView>,
    pub current: Option<HostView>,
}

impl ParseState {
    /// The state before the first line.
    pub open spec fn start() -> ParseState {
        ParseState { done: Seq::empty(), current: None }
    }

    /// The profiles read so far, the one under construction included.
    pub open spec fn flush(self) -> Seq<HostView> {
        match self.current {
            Some(h) => self.done.push(h),
            None => self.done,
        }
    }

    /// The state after one more line. A host declaration completes the
    /// profile under construction and starts one with no field set. A field
    /// line sets that field of the profile under construction, and is ignored
    /// where there is none. Any other line changes nothing.
    pub open spec fn apply(self, raw: Seq<char>) -> ParseState {
        match classify(trim(raw)) {
            Line::Host(name) => ParseState {
                done: self.flush(),
                current: Some(HostView::named(name)),
            },
            Line::Field(f, v) => match self.current {
                Some(h) => ParseState { done: self.done, current: Some(h.with(f, v)) },
                None => self,
            },
            Line::Other => self,
        }
    }

    /// The state after a sequence of lines.
    pub open spec fn apply_all(self, lines: Seq<Seq<char>>) -> ParseState
        decreases lines.len(),
    {
        if lines.len() == 0 {
            self
        } else {
            self.apply(lines[0]).apply_all(lines.drop_first())
        }
    }
}

/// The lines of a text: the pieces between its line feeds.
pub open spec fn split_lines(text: Seq<char>) -> Seq<Seq<char>>
    decreases text.len(),
{
    let n = line_end(text) as int;
    if n >= text.len() {
        seq![text]
    } else {
        seq![text.take(n)] + split_lines(text.skip(n + 1))
    }
}

/// The profiles that a configuration text holds, in the order of the text.
pub open spec fn parse(text: Seq<char>) -> Seq<HostView> {
    ParseState::start().apply_all(split_lines(text)).flush()
}

/// The line that declares a host.
pub open spec fn host_line(name: Seq<char>) -> Seq<char> {
    keyword(Field::Name) + " "@ + name
}

/// The indented line that sets a field.
pub open spec fn field_line(f: Field, v: Seq<char>) -> Seq<char> {
    "    "@ + keyword(f) + " "@ + v
}

/// The lines written for a field: one where it is set, none where it is not.
pub open spec fn field_lines(f: Field, value: Option<Seq<char>>) -> Seq<Seq<char>> {
    match value {
        Some(v) => seq![field_line(f, v)],
        None => Seq::empty(),
    }
}

/// The lines written for a profile: the host declaration, one line for each
/// field that is set, in the fixed order, and a blank line.
pub open spec fn host_lines(h: HostView) -> Seq<Seq<char>> {
    seq![host_line(h.name)] + field_lines(Field::HostName, h.hostname) + field_lines(
        Field::User,
        h.user,
    ) + field_lines(Field::Port, h.port) + field_lines(Field::IdentityFile, h.identity_file)
        + field_lines(Field::ProxyJump, h.proxy_jump) + field_lines(
        Field::ForwardAgent,
        h.forward_agent,
    ) + field_lines(Field::Password, h.password) + seq![Seq::<char>::empty()]
}

/// The lines written for a sequence of profiles.
pub open spec fn config_lines(hosts: Seq<HostView>) -> Seq<Seq<char>>
    decreases hosts.len(),
{
    if hosts.len() == 0 {
        Seq::empty()
    } else {
        host_lines(hosts[0]) + config_lines(hosts.drop_first())
    }
}

/// The text made of the given lines, each ended by a line feed.
pub open spec fn join_lines(lines: Seq<Seq<char>>) -> Seq<char>
    decreases lines.len(),
{
    if lines.len() == 0 {
        Seq::empty()
    } else {
        lines[0] + seq!['\n'] + join_lines(lines.drop_first())
    }
}

/// The configuration text for a sequence of profiles.
pub open spec fn serialize(hosts: Seq<HostView>) -> Seq<char> {
    join_lines(config_lines(hosts))
}

/// Joining the lines of two lists one after the other joins their texts.
pub proof fn lemma_join_lines_concat(a: Seq<Seq<char>>, b: Seq<Seq<char>>)
    ensures
        join_lines(a + b) == join_lines(a) + join_lines(b),
    decreases a.len(),
{
    if a.len() == 0 {
        assert(a + b =~= b);
        assert(join_lines(a) + join_lines(b) =~= join_lines(b));
    } else {
        lemma_join_lines_concat(a.drop_first(), b);
        assert((a + b).drop_first() =~= a.drop_first() + b);
        assert((a + b)[0] == a[0]);
        assert(join_lines(a + b) =~= join_lines(a) + join_lines(b));
    }
}

/// The text of a single line is the line and a line feed.
pub proof fn lemma_join_one_line(line: Seq<char>)
    ensures
        join_lines(seq![line]) == line + seq!['\n'],
{
    let l = seq![line];
    assert(l.drop_first() =~= Seq::<Seq<char>>::empty());
    assert(join_lines(l.drop_first()) =~= Seq::<char>::empty());
    assert(join_lines(l) =~= line + seq!['\n']);
}

/// The lines of a list of profiles with one more at its end.
pub proof fn lemma_config_lines_push(hosts: Seq<HostView>, h: HostView)
    ensures
        config_lines(hosts.push(h)) == config_lines(hosts) + host_lines(h),
    decreases hosts.len(),
{
    let all = hosts.push(h);
    if hosts.len() == 0 {
        assert(all.drop_first() =~= Seq::<HostView>::empty());
        assert(all[0] == h);
        assert(config_lines(all.drop_first()) =~= Seq::<Seq<char>>::empty());
        assert(config_lines(all) =~= host_lines(h));
        assert(config_lines(hosts) + host_lines(h) =~= host_lines(h));
    } else {
        lemma_config_lines_push(hosts.drop_first(), h);
        assert(all.drop_first() =~= hosts.drop_first().push(h));
        assert(all[0] == hosts[0]);
        assert(config_lines(all) =~= config_lines(hosts) + host_lines(h));
    }
}

/// A line as the parser has read it: the slices are parts of the input.
enum ParsedLine<'a> {
    Host(&'a [char]),
    Field(Field, &'a [char]),
    Other,
}

impl<'a> ParsedLine<'a> {
    spec fn line(self) -> Line {
        match self {
            ParsedLine::Host(name) => Line::Host(name@),
            ParsedLine::Field(f, v) => Line::Field(f, v@),
            ParsedLine::Other => Line::Other,
        }
    }
}

/// The keyword of a field, as it stands in the file.
pub fn keyword_text(f: Field) -> (r: &'static str)
    ensures
        r@ == keyword(f),
{
    match f {
        Field::Name => "Host",
        Field::HostName => "HostName",
        Field::User => "User",
        Field::Port => "Port",
        Field::IdentityFile => "IdentityFile",
        Field::ProxyJump => "ProxyJump",
        Field::ForwardAgent => "ForwardAgent",
        Field::Password => "# Password",
    }
}

/// The value of a field line: `Some` where `t` begins with `k`.
fn field_value<'a>(t: &'a [char], k: &str) -> (r: Option<&'a [char]>)
    ensures
        match r {
            Some(v) => has_prefix(t@, k@) && v@ == value_after(t@, k@),
            None => !has_prefix(t@, k@),
        },
{
    match strip_prefix(t, k) {
        Some(rest) => Some(trim_slice(rest)),
        None => None,
    }
}

/// Reads a trimmed line.
fn classify_line<'a>(t: &'a [char]) -> (r: ParsedLine<'a>)
    ensures
        r.line() == classify(t@),
{
    if let Some(rest) = strip_prefix(t, keyword_text(Field::Name)) {
        if rest.len() > 0 && is_space_char(rest[0]) {
            return ParsedLine::Host(trim_slice(rest));
        }
    }
    assert(!is_host_line(t@));
    if let Some(v) = field_value(t, keyword_text(Field::HostName)) {
        ParsedLine::Field(Field::HostName, v)
    } else if let Some(v) = field_value(t, keyword_text(Field::User)) {
        ParsedLine::Field(Field::User, v)
    } else if let Some(v) = field_value(t, keyword_text(Field::Port)) {
        ParsedLine::Field(Field::Port, v)
    } else if let Some(v) = field_value(t, keyword_text(Field::IdentityFile)) {
        ParsedLine::Field(Field::IdentityFile, v)
    } else if let Some(v) = field_value(t, keyword_text(Field::ProxyJump)) {
        ParsedLine::Field(Field::ProxyJump, v)
    } else if let Some(v) = field_value(t, keyword_text(Field::ForwardAgent)) {
        ParsedLine::Field(Field::ForwardAgent, v)
    } else if let Some(v) = field_value(t, "Password") {
        ParsedLine::Field(Field::Password, v)
    } else if let Some(v) = field_value(t, keyword_text(Field::Password)) {
        ParsedLine::Field(Field::Password, v)
    } else {
        ParsedLine::Other
    }
}

/// The parser's state, held in the profiles read so far and the one under
/// construction.
pub open spec fn state_of(hosts: Seq<HostEntry>, current: Option<HostEntry>) -> ParseState {
    ParseState {
        done: host_views(hosts),
        current: match current {
            Some(h) => Some(h@),
            None => None,
        },
    }
}

/// Takes one line into the parser's state.
fn apply_line(hosts: &mut Vec<HostEntry>, current: &mut Option<HostEntry>, raw: &[char])
    ensures
        state_of(final(hosts)@, *final(current)) == state_of(old(hosts)@, *old(current)).apply(
            raw@,
        ),
{
    let t = trim_slice(raw);
    match classify_line(t) {
        ParsedLine::Host(name) => {
            let previous = current.take();
            if let Some(entry) = previous {
                proof {
                    assert(host_views(hosts@.push(entry)) =~= host_views(hosts@).push(entry@));
                }
                hosts.push(entry);
            }
            *current = Some(HostEntry::named(string_of(name)));
        },
        ParsedLine::Field(f, v) => {
            if let Some(entry) = current.as_mut() {
                entry.set_field(f, string_of(v));
            }
        },
        ParsedLine::Other => {},
    }
}

/// Appends one line and its line feed to the text.
fn emit_line(out: &mut String, indent: &str, k: &str, v: &str)
    ensures
        final(out)@ == old(out)@ + join_lines(seq![indent@ + k@ + " "@ + v@]),
{
    proof {
        lemma_join_one_line(indent@ + k@ + " "@ + v@);
        reveal_strlit("\n");
        assert("\n"@ =~= seq!['\n']);
    }
    out.append(indent);
    out.append(k);
    out.append(" ");
    out.append(v);
    out.append("\n");
    assert(final(out)@ =~= old(out)@ + (indent@ + k@ + " "@ + v@ + seq!['\n']));
}

/// Appends the line of a field, where the field is set.
fn emit_field(out: &mut String, f: Field, value: &Option<String>)
    ensures
        final(out)@ == old(out)@ + join_lines(field_lines(f, text_of(*value))),
{
    match value {
        Some(v) => {
            emit_line(out, "    ", keyword_text(f), v.as_str());
        },
        None => {
            assert(old(out)@ + join_lines(Seq::<Seq<char>>::empty()) =~= old(out)@);
        },
    }
}

/// Text that ends in the lines `a`, followed by the lines `b`, ends in the
/// lines `a + b`.
proof fn lemma_join_lines_extend(base: Seq<char>, a: Seq<Seq<char>>, b: Seq<Seq<char>>)
    ensures
        base + join_lines(a) + join_lines(b) == base + join_lines(a + b),
{
    lemma_join_lines_concat(a, b);
    assert(base + join_lines(a) + join_lines(b) =~= base + (join_lines(a) + join_lines(b)));
}

/// Appends the lines of one profile.
fn emit_host(out: &mut String, host: &HostEntry)
    ensures
        final(out)@ == old(out)@ + join_lines(host_lines(host@)),
{
    let ghost h = host@;
    let ghost base = out@;
    let ghost l0 = seq![host_line(h.name)];
    let ghost l1 = l0 + field_lines(Field::HostName, h.hostname);
    let ghost l2 = l1 + field_lines(Field::User, h.user);
    let ghost l3 = l2 + field_lines(Field::Port, h.port);
    let ghost l4 = l3 + field_lines(Field::IdentityFile, h.identity_file);
    let ghost l5 = l4 + field_lines(Field::ProxyJump, h.proxy_jump);
    let ghost l6 = l5 + field_lines(Field::ForwardAgent, h.forward_agent);
    let ghost l7 = l6 + field_lines(Field::Password, h.password);
    emit_line(out, "", keyword_text(Field::Name), host.name.as_str());
    assert(out@ == base + join_lines(l0)) by {
        reveal_strlit("");
        assert(""@ + keyword(Field::Name) + " "@ + h.name =~= host_line(h.name));
    }
    emit_field(out, Field::HostName, &host.hostname);
    assert(out@ == base + join_lines(l1)) by {
        lemma_join_lines_extend(base, l0, field_lines(Field::HostName, h.hostname));
    }
    emit_field(out, Field::User, &host.user);
    assert(out@ == base + join_lines(l2)) by {
        lemma_join_lines_extend(base, l1, field_lines(Field::User, h.user));
    }
    emit_field(out, Field::Port, &host.port);
    assert(out@ == base + join_lines(l3)) by {
        lemma_join_lines_extend(base, l2, field_lines(Field::Port, h.port));
    }
    emit_field(out, Field::IdentityFile, &host.identity_file);
    assert(out@ == base + join_lines(l4)) by {
        lemma_join_lines_extend(base, l3, field_lines(Field::IdentityFile, h.identity_file));
    }
    emit_field(out, Field::ProxyJump, &host.proxy_jump);
    assert(out@ == base + join_lines(l5)) by {
        lemma_join_lines_extend(base, l4, field_lines(Field::ProxyJump, h.proxy_jump));
    }
    emit_field(out, Field::ForwardAgent, &host.forward_agent);
    assert(out@ == base + join_lines(l6)) by {
        lemma_join_lines_extend(base, l5, field_lines(Field::ForwardAgent, h.forward_agent));
    }
    emit_field(out, Field::Password, &host.password);
    assert(out@ == base + join_lines(l7)) by {
        lemma_join_lines_extend(base, l6, field_lines(Field::Password, h.password));
    }
    out.append("\n");
    assert(out@ == base + join_lines(host_lines(h))) by {
        let blank = seq![Seq::<char>::empty()];
        lemma_join_one_line(Seq::<char>::empty());
        reveal_strlit("\n");
        assert("\n"@ =~= join_lines(blank));
        lemma_join_lines_extend(base, l7, blank);
        assert(l7 + blank == host_lines(h));
    }
}

impl HostEntry {
    /// Reads the profiles of a configuration text. Every text is accepted:
    /// lines that say nothing the format knows, and field lines before the
    /// first host declaration, are passed over.
    pub fn parse_ssh_config(file: &str) -> (hosts: Vec<HostEntry>)
        ensures
            host_views(hosts@) == parse(file@),
            forall|i: int| 0 <= i < hosts.len() ==> (#[trigger] hosts[i])@.valid(),
    {
        let chars = to_chars(file);
        let text = chars.as_slice();
        let mut hosts: Vec<HostEntry> = Vec::new();
        let mut current: Option<HostEntry> = None;
        let mut pos: usize = 0;
        assert(text@.skip(0) =~= text@);
        assert(host_views(hosts@) =~= Seq::<HostView>::empty());
        loop
            invariant_except_break
                pos <= text.len(),
                text@ == file@,
                state_of(hosts@, current).apply_all(split_lines(text@.skip(pos as int)))
                    == ParseState::start().apply_all(split_lines(file@)),
            ensures
                state_of(hosts@, current) == ParseState::start().apply_all(split_lines(file@)),
            decreases text.len() - pos,
        {
            let rest = slice_subrange(text, pos, text.len());
            let n = find_line_end(rest);
            let line = slice_subrange(rest, 0, n);
            let ghost before = state_of(hosts@, current);
            let ghost lines = split_lines(rest@);
            assert(rest@ == text@.skip(pos as int));
            assert(lines[0] == line@) by {
                assert(line@ =~= rest@.take(n as int));
                if n == rest.len() {
                    assert(rest@.take(n as int) =~= rest@);
                }
            }
            apply_line(&mut hosts, &mut current, line);
            if n == rest.len() {
                assert(lines.drop_first() =~= Seq::<Seq<char>>::empty());
                assert(before.apply(line@).apply_all(lines.drop_first()) == before.apply(line@));
                assert(before.apply_all(lines) == before.apply(line@));
                break ;
            }
            assert(lines.drop_first() =~= split_lines(rest@.skip(n + 1)));
            assert(before.apply_all(lines) == before.apply(line@).apply_all(lines.drop_first()));
            assert(rest@.skip(n + 1) =~= text@.skip(pos + n + 1));
            pos = pos + n + 1;
        }
        if let Some(entry) = current {
            proof {
                assert(host_views(hosts@.push(entry)) =~= host_views(hosts@).push(entry@));
            }
            hosts.push(entry);
        }
        proof {
            lemma_parse_valid(file@);
            assert(host_views(hosts@) == parse(file@));
            assert forall|i: int| 0 <= i < hosts.len() implies (#[trigger] hosts[i])@.valid() by {
                assert(parse(file@)[i] == hosts[i]@);
            }
        }
        hosts
    }

    /// Writes profiles as configuration text: for each profile, in order,
    /// the host declaration, one indented line for each field that is set,
    /// and a blank line. A field that is not set leaves no trace.
    pub fn serialize_ssh_config(hosts: &[HostEntry]) -> (out: String)
        ensures
            out@ == serialize(host_views(hosts@)),
    {
        let mut out = String::new();
        let mut i: usize = 0;
        assert(host_views(hosts@).take(0) =~= Seq::<HostView>::empty());
        while i < hosts.len()
            invariant
                i <= hosts.len(),
                out@ == serialize(host_views(hosts@).take(i as int)),
            decreases hosts.len() - i,
        {
            proof {
                let views = host_views(hosts@);
                lemma_config_lines_push(views.take(i as int), views[i as int]);
                assert(views.take(i + 1) =~= views.take(i as int).push(views[i as int]));
                lemma_join_lines_concat(
                    config_lines(views.take(i as int)),
                    host_lines(views[i as int]),
                );
            }
            emit_host(&mut out, &hosts[i]);
            i += 1;
        }
        assert(host_views(hosts@).take(i as int) =~= host_views(hosts@));
        out
    }
}

} // verus!
