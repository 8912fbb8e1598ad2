//! What holds of the configuration format: writing profiles and reading the
//! text back gives the same profiles, and reading passes over what it does
//! not know.

use vstd::prelude::*;
use crate::codec::{
    classify, config_lines, field_line, field_lines, host_line, host_lines, is_host_line,
    join_lines, keyword, parse, serialize, split_lines, value_after, Line, ParseState,
};
use crate::profile::{Field, HostView};
use crate::text::{
    has_prefix, has_solid_ends, is_space, lemma_line_end, lemma_trim_ends, lemma_trim_padded,
    lemma_trim_solid, line_end, trim,
};

verus! {

/// A value that the format keeps as it is: it is not empty, has no white
/// space at either end, and holds no line feed.
pub open spec fn is_plain(v: Seq<char>) -> bool {
    has_solid_ends(v) && forall|j: int| 0 <= j < v.len() ==> #[trigger] v[j] != '\n'
}

/// An optional value that is plain where it is set.
pub open spec fn is_plain_or_unset(v: Option<Seq<char>>) -> bool {
    match v {
        Some(s) => is_plain(s),
        None => true,
    }
}

/// A profile whose name and whose every set field are plain.
pub open spec fn is_plain_host(h: HostView) -> bool {
    &&& is_plain(h.name)
    &&& is_plain_or_unset(h.hostname)
    &&& is_plain_or_unset(h.user)
    &&& is_plain_or_unset(h.port)
    &&& is_plain_or_unset(h.identity_file)
    &&& is_plain_or_unset(h.proxy_jump)
    &&& is_plain_or_unset(h.forward_agent)
    &&& is_plain_or_unset(h.password)
}

/// Whether no character of `line` is a line feed.
pub open spec fn is_one_line(line: Seq<char>) -> bool {
    forall|j: int| 0 <= j < line.len() ==> #[trigger] line[j] != '\n'
}

/// A text that differs from `k` at some place of `k` does not begin with `k`.
proof fn lemma_not_prefix(t: Seq<char>, k: Seq<char>, j: int)
    requires
        0 <= j < k.len(),
        j < t.len() ==> t[j] != k[j],
    ensures
        !has_prefix(t, k),
{
    if has_prefix(t, k) {
        assert(t.take(k.len() as int)[j] == t[j]);
    }
}

/// What the keywords hold, character by character.
proof fn lemma_keywords()
    ensures
        "Host"@ == seq!['H', 'o', 's', 't'],
        "HostName"@ == seq!['H', 'o', 's', 't', 'N', 'a', 'm', 'e'],
        "User"@ == seq!['U', 's', 'e', 'r'],
        "Port"@ == seq!['P', 'o', 'r', 't'],
        "IdentityFile"@ == seq!['I', 'd', 'e', 'n', 't', 'i', 't', 'y', 'F', 'i', 'l', 'e'],
        "ProxyJump"@ == seq!['P', 'r', 'o', 'x', 'y', 'J', 'u', 'm', 'p'],
        "ForwardAgent"@ == seq!['F', 'o', 'r', 'w', 'a', 'r', 'd', 'A', 'g', 'e', 'n', 't'],
        "Password"@ == seq!['P', 'a', 's', 's', 'w', 'o', 'r', 'd'],
        "# Password"@ == seq!['#', ' ', 'P', 'a', 's', 's', 'w', 'o', 'r', 'd'],
        " "@ == seq![' '],
        "    "@ == seq![' ', ' ', ' ', ' '],
{
    reveal_strlit("Host");
    reveal_strlit("HostName");
    reveal_strlit("User");
    reveal_strlit("Port");
    reveal_strlit("IdentityFile");
    reveal_strlit("ProxyJump");
    reveal_strlit("ForwardAgent");
    reveal_strlit("Password");
    reveal_strlit("# Password");
    reveal_strlit(" ");
    reveal_strlit("    ");
    assert("Host"@ =~= seq!['H', 'o', 's', 't']);
    assert("HostName"@ =~= seq!['H', 'o', 's', 't', 'N', 'a', 'm', 'e']);
    assert("User"@ =~= seq!['U', 's', 'e', 'r']);
    assert("Port"@ =~= seq!['P', 'o', 'r', 't']);
    assert("IdentityFile"@ =~= seq!['I', 'd', 'e', 'n', 't', 'i', 't', 'y', 'F', 'i', 'l', 'e']);
    assert("ProxyJump"@ =~= seq!['P', 'r', 'o', 'x', 'y', 'J', 'u', 'm', 'p']);
    assert("ForwardAgent"@ =~= seq!['F', 'o', 'r', 'w', 'a', 'r', 'd', 'A', 'g', 'e', 'n', 't']);
    assert("Password"@ =~= seq!['P', 'a', 's', 's', 'w', 'o', 'r', 'd']);
    assert("# Password"@ =~= seq!['#', ' ', 'P', 'a', 's', 's', 'w', 'o', 'r', 'd']);
    assert(" "@ =~= seq![' ']);
    assert("    "@ =~= seq![' ', ' ', ' ', ' ']);
}

/// A blank line says nothing.
pub proof fn lemma_blank_line_is_other()
    ensures
        classify(trim(Seq::<char>::empty())) == Line::Other,
{
    lemma_keywords();
    let e = Seq::<char>::empty();
    assert(trim(e) =~= e);
}

/// The value of a keyword line written with one blank and a plain value.
proof fn lemma_value_after(k: Seq<char>, v: Seq<char>)
    requires
        is_plain(v),
    ensures
        has_prefix(k + " "@ + v, k),
        value_after(k + " "@ + v, k) == v,
{
    lemma_keywords();
    let t = k + " "@ + v;
    assert(t.take(k.len() as int) =~= k);
    assert(t.skip(k.len() as int) =~= " "@ + v);
    lemma_trim_padded(" "@, v);
}

/// A host line written for a plain name reads as the declaration of that name.
pub proof fn lemma_host_line_reads_back(name: Seq<char>)
    requires
        is_plain(name),
    ensures
        classify(trim(host_line(name))) == Line::Host(name),
        is_one_line(host_line(name)),
{
    lemma_keywords();
    let k = keyword(Field::Name);
    let t = host_line(name);
    assert(t[0] == 'H');
    assert(t.last() == name.last());
    lemma_trim_solid(t);
    lemma_value_after(k, name);
    assert(t[k.len() as int] == ' ');
    assert(is_host_line(t));
}

/// A field line written for a plain value reads as that field with that
/// value.
pub proof fn lemma_field_line_reads_back(f: Field, v: Seq<char>)
    requires
        f != Field::Name,
        is_plain(v),
    ensures
        classify(trim(field_line(f, v))) == Line::Field(f, v),
        is_one_line(field_line(f, v)),
{
    lemma_keywords();
    let k = keyword(f);
    let t = k + " "@ + v;
    assert(field_line(f, v) =~= "    "@ + t);
    assert(t[0] == k[0]);
    assert(t.last() == v.last());
    lemma_trim_padded("    "@, t);
    lemma_value_after(k, v);
    assert(forall|j: int| 0 <= j < k.len() ==> t[j] == k[j]);
    assert(t[k.len() as int] == ' ');
    assert(!is_host_line(t)) by {
        if f == Field::HostName {
            assert(t[4] == 'N');
        } else {
            lemma_not_prefix(t, "Host"@, 0);
        }
    }
    match f {
        Field::Name => {},
        Field::HostName => {},
        Field::User => {
            lemma_not_prefix(t, "HostName"@, 0);
        },
        Field::Port => {
            lemma_not_prefix(t, "HostName"@, 0);
            lemma_not_prefix(t, "User"@, 0);
        },
        Field::IdentityFile => {
            lemma_not_prefix(t, "HostName"@, 0);
            lemma_not_prefix(t, "User"@, 0);
            lemma_not_prefix(t, "Port"@, 0);
        },
        Field::ProxyJump => {
            lemma_not_prefix(t, "HostName"@, 0);
            lemma_not_prefix(t, "User"@, 0);
            lemma_not_prefix(t, "Port"@, 1);
            lemma_not_prefix(t, "IdentityFile"@, 0);
        },
        Field::ForwardAgent => {
            lemma_not_prefix(t, "HostName"@, 0);
            lemma_not_prefix(t, "User"@, 0);
            lemma_not_prefix(t, "Port"@, 0);
            lemma_not_prefix(t, "IdentityFile"@, 0);
            lemma_not_prefix(t, "ProxyJump"@, 0);
        },
        Field::Password => {
            lemma_not_prefix(t, "HostName"@, 0);
            lemma_not_prefix(t, "User"@, 0);
            lemma_not_prefix(t, "Port"@, 0);
            lemma_not_prefix(t, "IdentityFile"@, 0);
            lemma_not_prefix(t, "ProxyJump"@, 0);
            lemma_not_prefix(t, "ForwardAgent"@, 0);
            lemma_not_prefix(t, "Password"@, 0);
        },
    }
    assert(is_one_line(field_line(f, v))) by {
        let line = field_line(f, v);
        assert forall|j: int| 0 <= j < line.len() implies #[trigger] line[j] != '\n' by {
            if j < 4 {
                assert(line[j] == ' ');
            } else if j < 4 + k.len() {
                assert(line[j] == k[j - 4]);
            } else if j == 4 + k.len() {
                assert(line[j] == ' ');
            } else {
                assert(line[j] == v[j - 5 - k.len()]);
            }
        }
    }
}

/// Reading lines one list after another is reading their concatenation.
pub proof fn lemma_apply_all_concat(st: ParseState, a: Seq<Seq<char>>, b: Seq<Seq<char>>)
    ensures
        st.apply_all(a + b) == st.apply_all(a).apply_all(b),
    decreases a.len(),
{
    if a.len() == 0 {
        assert(a + b =~= b);
    } else {
        assert((a + b)[0] == a[0]);
        assert((a + b).drop_first() =~= a.drop_first() + b);
        lemma_apply_all_concat(st.apply(a[0]), a.drop_first(), b);
    }
}

/// Reading a single line.
proof fn lemma_apply_all_one(st: ParseState, line: Seq<char>)
    ensures
        st.apply_all(seq![line]) == st.apply(line),
{
    let l = seq![line];
    assert(l.drop_first() =~= Seq::<Seq<char>>::empty());
    assert(st.apply(l[0]).apply_all(l.drop_first()) == st.apply(line));
}

/// The text of lines without line feeds splits into those lines and an empty
/// last line.
pub proof fn lemma_split_join(lines: Seq<Seq<char>>)
    requires
        forall|i: int| 0 <= i < lines.len() ==> is_one_line(#[trigger] lines[i]),
    ensures
        split_lines(join_lines(lines)) == lines.push(Seq::<char>::empty()),
    decreases lines.len(),
{
    let text = join_lines(lines);
    if lines.len() == 0 {
        assert(split_lines(text) =~= lines.push(Seq::<char>::empty()));
    } else {
        let first = lines[0];
        let rest = lines.drop_first();
        let n = first.len() as int;
        assert(is_one_line(first));
        assert forall|j: int| 0 <= j < n implies #[trigger] text[j] != '\n' by {
            assert(text[j] == first[j]);
        }
        assert(text[n] == '\n');
        lemma_line_end(text, n);
        assert(text.take(n) =~= first);
        assert(text.skip(n + 1) =~= join_lines(rest));
        assert forall|i: int| 0 <= i < rest.len() implies is_one_line(#[trigger] rest[i]) by {
            assert(rest[i] == lines[i + 1]);
        }
        lemma_split_join(rest);
        assert(seq![first] + rest.push(Seq::<char>::empty()) =~= lines.push(
            Seq::<char>::empty(),
        ));
    }
}

/// Reading the lines written for one field of the profile under construction
/// sets that field to the value written, where one was.
proof fn lemma_apply_field_lines(st: ParseState, f: Field, value: Option<Seq<char>>)
    requires
        f != Field::Name,
        st.current is Some,
        is_plain_or_unset(value),
    ensures
        st.apply_all(field_lines(f, value)) == match value {
            Some(v) => ParseState { done: st.done, current: Some(st.current->0.with(f, v)) },
            None => st,
        },
        forall|i: int|
            0 <= i < field_lines(f, value).len() ==> is_one_line(#[trigger] field_lines(f, value)[i]),
{
    match value {
        Some(v) => {
            lemma_field_line_reads_back(f, v);
            lemma_apply_all_one(st, field_line(f, v));
        },
        None => {},
    }
}

/// Reading the lines written for a plain profile completes the profile that
/// was under construction and leaves the written one under construction.
pub proof fn lemma_apply_host_lines(st: ParseState, h: HostView)
    requires
        is_plain_host(h),
    ensures
        st.apply_all(host_lines(h)) == (ParseState { done: st.flush(), current: Some(h) }),
        forall|i: int| 0 <= i < host_lines(h).len() ==> is_one_line(#[trigger] host_lines(h)[i]),
{
    let blank = Seq::<char>::empty();
    let l0 = seq![host_line(h.name)];
    let f1 = field_lines(Field::HostName, h.hostname);
    let f2 = field_lines(Field::User, h.user);
    let f3 = field_lines(Field::Port, h.port);
    let f4 = field_lines(Field::IdentityFile, h.identity_file);
    let f5 = field_lines(Field::ProxyJump, h.proxy_jump);
    let f6 = field_lines(Field::ForwardAgent, h.forward_agent);
    let f7 = field_lines(Field::Password, h.password);
    let l1 = l0 + f1;
    let l2 = l1 + f2;
    let l3 = l2 + f3;
    let l4 = l3 + f4;
    let l5 = l4 + f5;
    let l6 = l5 + f6;
    let l7 = l6 + f7;
    let s0 = st.apply_all(l0);
    let s1 = s0.apply_all(f1);
    let s2 = s1.apply_all(f2);
    let s3 = s2.apply_all(f3);
    let s4 = s3.apply_all(f4);
    let s5 = s4.apply_all(f5);
    let s6 = s5.apply_all(f6);
    let s7 = s6.apply_all(f7);
    lemma_host_line_reads_back(h.name);
    lemma_apply_all_one(st, host_line(h.name));
    assert(s0 == ParseState { done: st.flush(), current: Some(HostView::named(h.name)) });
    lemma_apply_field_lines(s0, Field::HostName, h.hostname);
    lemma_apply_field_lines(s1, Field::User, h.user);
    lemma_apply_field_lines(s2, Field::Port, h.port);
    lemma_apply_field_lines(s3, Field::IdentityFile, h.identity_file);
    lemma_apply_field_lines(s4, Field::ProxyJump, h.proxy_jump);
    lemma_apply_field_lines(s5, Field::ForwardAgent, h.forward_agent);
    lemma_apply_field_lines(s6, Field::Password, h.password);
    assert(s7 == ParseState { done: st.flush(), current: Some(h) });
    lemma_apply_all_concat(st, l0, f1);
    lemma_apply_all_concat(st, l1, f2);
    lemma_apply_all_concat(st, l2, f3);
    lemma_apply_all_concat(st, l3, f4);
    lemma_apply_all_concat(st, l4, f5);
    lemma_apply_all_concat(st, l5, f6);
    lemma_apply_all_concat(st, l6, f7);
    lemma_apply_all_concat(st, l7, seq![blank]);
    lemma_blank_line_is_other();
    lemma_apply_all_one(s7, blank);
    assert(host_lines(h) == l7 + seq![blank]);
    assert forall|i: int| 0 <= i < host_lines(h).len() implies is_one_line(
        #[trigger] host_lines(h)[i],
    ) by {
        let l = host_lines(h);
        if i < l0.len() {
            assert(l[i] == l0[i]);
        } else if i < l1.len() {
            assert(l[i] == f1[i - l0.len()]);
        } else if i < l2.len() {
            assert(l[i] == f2[i - l1.len()]);
        } else if i < l3.len() {
            assert(l[i] == f3[i - l2.len()]);
        } else if i < l4.len() {
            assert(l[i] == f4[i - l3.len()]);
        } else if i < l5.len() {
            assert(l[i] == f5[i - l4.len()]);
        } else if i < l6.len() {
            assert(l[i] == f6[i - l5.len()]);
        } else if i < l7.len() {
            assert(l[i] == f7[i - l6.len()]);
        } else {
            assert(l[i] == blank);
        }
    }
}

/// Reading the lines written for plain profiles adds those profiles, in
/// order, to the ones read before.
pub proof fn lemma_apply_config_lines(st: ParseState, hosts: Seq<HostView>)
    requires
        forall|i: int| 0 <= i < hosts.len() ==> is_plain_host(#[trigger] hosts[i]),
    ensures
        st.apply_all(config_lines(hosts)).flush() == st.flush() + hosts,
        forall|i: int|
            0 <= i < config_lines(hosts).len() ==> is_one_line(#[trigger] config_lines(hosts)[i]),
    decreases hosts.len(),
{
    if hosts.len() == 0 {
        assert(st.flush() + hosts =~= st.flush());
    } else {
        let h = hosts[0];
        let rest = hosts.drop_first();
        let next = ParseState { done: st.flush(), current: Some(h) };
        assert(is_plain_host(h));
        lemma_apply_host_lines(st, h);
        assert forall|i: int| 0 <= i < rest.len() implies is_plain_host(#[trigger] rest[i]) by {
            assert(rest[i] == hosts[i + 1]);
        }
        lemma_apply_config_lines(next, rest);
        lemma_apply_all_concat(st, host_lines(h), config_lines(rest));
        assert(next.flush() + rest =~= st.flush() + hosts);
        assert forall|i: int| 0 <= i < config_lines(hosts).len() implies is_one_line(
            #[trigger] config_lines(hosts)[i],
        ) by {
            let l = config_lines(hosts);
            if i < host_lines(h).len() {
                assert(l[i] == host_lines(h)[i]);
            } else {
                assert(l[i] == config_lines(rest)[i - host_lines(h).len()]);
            }
        }
    }
}

/// Writing profiles and reading the text back gives the same profiles, in
/// the same order, with every field that was not set still not set. This
/// holds of profiles whose name and set fields are plain: not empty, without
/// white space at either end, and without a line feed.
pub proof fn lemma_parse_serialize(hosts: Seq<HostView>)
    requires
        forall|i: int| 0 <= i < hosts.len() ==> is_plain_host(#[trigger] hosts[i]),
    ensures
        parse(serialize(hosts)) == hosts,
{
    let start = ParseState::start();
    let lines = config_lines(hosts);
    let blank = Seq::<char>::empty();
    lemma_apply_config_lines(start, hosts);
    lemma_split_join(lines);
    assert(lines.push(blank) =~= lines + seq![blank]);
    lemma_apply_all_concat(start, lines, seq![blank]);
    lemma_blank_line_is_other();
    lemma_apply_all_one(start.apply_all(lines), blank);
    assert(start.flush() + hosts =~= hosts);
}

/// A line feed at the end of the text changes nothing: the last line counts
/// whether or not it is ended, and the profile under construction when the
/// text ends is part of the result.
pub proof fn lemma_final_line_feed_is_optional(text: Seq<char>)
    ensures
        parse(text + seq!['\n']) == parse(text),
{
    let blank = Seq::<char>::empty();
    let start = ParseState::start();
    lemma_split_with_final_line_feed(text);
    assert(split_lines(text).push(blank) =~= split_lines(text) + seq![blank]);
    lemma_apply_all_concat(start, split_lines(text), seq![blank]);
    lemma_blank_line_is_other();
    lemma_apply_all_one(start.apply_all(split_lines(text)), blank);
}

/// The lines of a text that is ended by one more line feed.
proof fn lemma_split_with_final_line_feed(text: Seq<char>)
    ensures
        split_lines(text + seq!['\n']) == split_lines(text).push(Seq::<char>::empty()),
    decreases text.len(),
{
    let blank = Seq::<char>::empty();
    let longer = text + seq!['\n'];
    let n = line_end(text) as int;
    crate::text::lemma_line_end_stops(text);
    assert forall|j: int| 0 <= j < n implies #[trigger] longer[j] != '\n' by {
        assert(longer[j] == text[j]);
    }
    if n >= text.len() {
        assert(longer[n] == '\n');
        lemma_line_end(longer, n);
        assert(longer.take(n) =~= text);
        assert(longer.skip(n + 1) =~= blank);
        assert(split_lines(blank) =~= seq![blank]);
        assert(split_lines(longer) =~= seq![text] + seq![blank]);
        assert(split_lines(text) =~= seq![text]);
        assert(seq![text] + seq![blank] =~= seq![text].push(blank));
    } else {
        assert(longer[n] == text[n]);
        lemma_line_end(longer, n);
        assert(longer.take(n) =~= text.take(n));
        assert(longer.skip(n + 1) =~= text.skip(n + 1) + seq!['\n']);
        lemma_split_with_final_line_feed(text.skip(n + 1));
        assert(seq![text.take(n)] + split_lines(text.skip(n + 1)).push(blank) =~= (seq![
            text.take(n),
        ] + split_lines(text.skip(n + 1))).push(blank));
    }
}

/// Reading lines none of which declares a host, with no profile under
/// construction, changes nothing.
proof fn lemma_apply_all_without_hosts(st: ParseState, lines: Seq<Seq<char>>)
    requires
        st.current is None,
        forall|i: int| 0 <= i < lines.len() ==> !is_host_line(trim(#[trigger] lines[i])),
    ensures
        st.apply_all(lines) == st,
    decreases lines.len(),
{
    if lines.len() > 0 {
        let rest = lines.drop_first();
        assert(!is_host_line(trim(lines[0])));
        assert(st.apply(lines[0]) == st);
        assert forall|i: int| 0 <= i < rest.len() implies !is_host_line(trim(#[trigger] rest[i])) by {
            assert(rest[i] == lines[i + 1]);
        }
        lemma_apply_all_without_hosts(st, rest);
    }
}

/// A text in which no line declares a host holds no profile.
pub proof fn lemma_parse_without_hosts(text: Seq<char>)
    requires
        forall|i: int|
            0 <= i < split_lines(text).len() ==> !is_host_line(
                trim(#[trigger] split_lines(text)[i]),
            ),
    ensures
        parse(text) == Seq::<HostView>::empty(),
{
    lemma_apply_all_without_hosts(ParseState::start(), split_lines(text));
}

/// A host declaration declares a name that is not empty.
proof fn lemma_declared_name(raw: Seq<char>)
    requires
        is_host_line(trim(raw)),
    ensures
        value_after(trim(raw), keyword(Field::Name)).len() > 0,
{
    let t = trim(raw);
    let k = keyword(Field::Name);
    let rest = t.skip(k.len() as int);
    lemma_trim_ends(raw);
    assert(!is_space(t.last()));
    assert(rest.last() == t.last());
    lemma_trim_ends(rest);
}

/// Reading lines keeps every profile valid.
proof fn lemma_apply_all_valid(st: ParseState, lines: Seq<Seq<char>>)
    requires
        forall|i: int| 0 <= i < st.flush().len() ==> (#[trigger] st.flush()[i]).valid(),
    ensures
        forall|i: int|
            0 <= i < st.apply_all(lines).flush().len() ==> (#[trigger] st.apply_all(
                lines,
            ).flush()[i]).valid(),
    decreases lines.len(),
{
    if lines.len() > 0 {
        let next = st.apply(lines[0]);
        assert forall|i: int| 0 <= i < next.flush().len() implies (#[trigger] next.flush()[i]).valid() by {
            match classify(trim(lines[0])) {
                Line::Host(name) => {
                    lemma_declared_name(lines[0]);
                    if i < st.flush().len() {
                        assert(next.flush()[i] == st.flush()[i]);
                    }
                },
                Line::Field(f, v) => {
                    if st.current is Some {
                        if i < st.done.len() {
                            assert(next.flush()[i] == st.flush()[i]);
                        } else {
                            assert(st.flush()[i] == st.current->0);
                            assert(f != Field::Name);
                        }
                    }
                },
                Line::Other => {},
            }
        }
        lemma_apply_all_valid(next, lines.drop_first());
    }
}

/// Every profile read from a text is valid: its name is not empty.
pub proof fn lemma_parse_valid(text: Seq<char>)
    ensures
        forall|i: int| 0 <= i < parse(text).len() ==> (#[trigger] parse(text)[i]).valid(),
{
    lemma_apply_all_valid(ParseState::start(), split_lines(text));
}

} // verus!
