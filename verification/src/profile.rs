//! One host's connection profile and its editable fields.

use vstd::prelude::*;
use vstd::std_specs::cmp::PartialEqSpecImpl;

verus! {

/// The number of editable fields of a profile.
pub const FIELD_COUNT: usize = 8;

/// The fields of a profile, in the order in which they are written and edited.
#[derive(Clone, Copy, PartialEq, Eq, Debug, Structural)]
pub enum Field {
    Name,
    HostName,
    User,
    Port,
    IdentityFile,
    ProxyJump,
    ForwardAgent,
    Password,
}

impl Field {
    /// The position of the field among the editable fields.
    pub open spec fn index(self) -> int {
        match self {
            Field::Name => 0,
            Field::HostName => 1,
            Field::User => 2,
            Field::Port => 3,
            Field::IdentityFile => 4,
            Field::ProxyJump => 5,
            Field::ForwardAgent => 6,
            Field::Password => 7,
        }
    }

    /// The field at a position, where there is one.
    pub open spec fn at(i: int) -> Option<Field> {
        if i == 0 {
            Some(Field::Name)
        } else if i == 1 {
            Some(Field::HostName)
        } else if i == 2 {
            Some(Field::User)
        } else if i == 3 {
            Some(Field::Port)
        } else if i == 4 {
            Some(Field::IdentityFile)
        } else if i == 5 {
            Some(Field::ProxyJump)
        } else if i == 6 {
            Some(Field::ForwardAgent)
        } else if i == 7 {
            Some(Field::Password)
        } else {
            None
        }
    }

    /// The label under which the field is shown in the edit form.
    pub open spec fn label(self) -> Seq<char> {
        match self {
            Field::Name => "Host"@,
            Field::HostName => "HostName"@,
            Field::User => "User"@,
            Field::Port => "Port"@,
            Field::IdentityFile => "IdentityFile"@,
            Field::ProxyJump => "ProxyJump"@,
            Field::ForwardAgent => "ForwardAgent"@,
            Field::Password => "Password"@,
        }
    }

    /// The field at position `i`; `None` where `i` is not below `FIELD_COUNT`.
    pub fn from_index(i: usize) -> (r: Option<Field>)
        ensures
            r == Field::at(i as int),
            r is Some <==> i < FIELD_COUNT,
    {
        match i {
            0 => Some(Field::Name),
            1 => Some(Field::HostName),
            2 => Some(Field::User),
            3 => Some(Field::Port),
            4 => Some(Field::IdentityFile),
            5 => Some(Field::ProxyJump),
            6 => Some(Field::ForwardAgent),
            7 => Some(Field::Password),
            _ => None,
        }
    }

    /// The position of the field.
    pub fn position(self) -> (i: usize)
        ensures
            i == self.index(),
            i < FIELD_COUNT,
            Field::at(i as int) == Some(self),
    {
        match self {
            Field::Name => 0,
            Field::HostName => 1,
            Field::User => 2,
            Field::Port => 3,
            Field::IdentityFile => 4,
            Field::ProxyJump => 5,
            Field::ForwardAgent => 6,
            Field::Password => 7,
        }
    }

    /// The label of the field in the edit form.
    pub fn label_text(self) -> (r: &'static str)
        ensures
            r@ == self.label(),
    {
        match self {
            Field::Name => "Host",
            Field::HostName => "HostName",
            Field::User => "User",
            Field::Port => "Port",
            Field::IdentityFile => "IdentityFile",
            Field::ProxyJump => "ProxyJump",
            Field::ForwardAgent => "ForwardAgent",
            Field::Password => "Password",
        }
    }
}

/// The text of an optional string.
pub open spec fn text_of(s: Option<String>) -> Option<Seq<char>> {
    match s {
        Some(v) => Some(v@),
        None => None,
    }
}

/// A profile as a mathematical value: the name and the optional fields, each
/// a sequence of characters.
pub struct HostView {
    pub name: Seq<char>,
    pub hostname: Option<Seq<char>>,
    pub user: Option<Seq<char>>,
    pub port: Option<Seq<char>>,
    pub identity_file: Option<Seq<char>>,
    pub proxy_jump: Option<Seq<char>>,
    pub forward_agent: Option<Seq<char>>,
    pub password: Option<Seq<char>>,
}

impl HostView {
    /// The profile with the given name and no other field set.
    pub open spec fn named(name: Seq<char>) -> HostView {
        HostView {
            name,
            hostname: None,
            user: None,
            port: None,
            identity_file: None,
            proxy_jump: None,
            forward_agent: None,
            password: None,
        }
    }

    /// A profile is valid when its name is not empty.
    pub open spec fn valid(self) -> bool {
        self.name.len() > 0
    }

    /// The value of a field; the name is always set.
    pub open spec fn get(self, f: Field) -> Option<Seq<char>> {
        match f {
            Field::Name => Some(self.name),
            Field::HostName => self.hostname,
            Field::User => self.user,
            Field::Port => self.port,
            Field::IdentityFile => self.identity_file,
            Field::ProxyJump => self.proxy_jump,
            Field::ForwardAgent => self.forward_agent,
            Field::Password => self.password,
        }
    }

    /// The text that editing a field starts from: its value, or the empty
    /// text where the field is not set.
    pub open spec fn text(self, f: Field) -> Seq<char> {
        match self.get(f) {
            Some(v) => v,
            None => Seq::empty(),
        }
    }

    /// The profile with one field set to `v` and the others unchanged.
    pub open spec fn with(self, f: Field, v: Seq<char>) -> HostView {
        match f {
            Field::Name => HostView { name: v, ..self },
            Field::HostName => HostView { hostname: Some(v), ..self },
            Field::User => HostView { user: Some(v), ..self },
            Field::Port => HostView { port: Some(v), ..self },
            Field::IdentityFile => HostView { identity_file: Some(v), ..self },
            Field::ProxyJump => HostView { proxy_jump: Some(v), ..self },
            Field::ForwardAgent => HostView { forward_agent: Some(v), ..self },
            Field::Password => HostView { password: Some(v), ..self },
        }
    }
}

/// One host's recognised fields. All but the name are optional, and each is
/// kept as the raw text found in the file.
#[derive(Debug)]
pub struct HostEntry {
    pub name: String,
    pub hostname: Option<String>,
    pub user: Option<String>,
    pub port: Option<String>,
    pub identity_file: Option<String>,
    pub proxy_jump: Option<String>,
    pub forward_agent: Option<String>,
    pub password: Option<String>,
}

impl View for HostEntry {
    type V = HostView;

    open spec fn view(&self) -> HostView {
        HostView {
            name: self.name@,
            hostname: text_of(self.hostname),
            user: text_of(self.user),
            port: text_of(self.port),
            identity_file: text_of(self.identity_file),
            proxy_jump: text_of(self.proxy_jump),
            forward_agent: text_of(self.forward_agent),
            password: text_of(self.password),
        }
    }
}

/// The profiles of a list, as mathematical values.
pub open spec fn host_views(hosts: Seq<HostEntry>) -> Seq<HostView> {
    Seq::new(hosts.len(), |i: int| hosts[i]@)
}

/// A copy of an optional string.
pub fn clone_text(s: &Option<String>) -> (r: Option<String>)
    ensures
        text_of(r) == text_of(*s),
{
    match s {
        Some(v) => Some(v.clone()),
        None => None,
    }
}

impl Clone for HostEntry {
    fn clone(&self) -> (r: Self)
        ensures
            r@ == self@,
    {
        HostEntry {
            name: self.name.clone(),
            hostname: clone_text(&self.hostname),
            user: clone_text(&self.user),
            port: clone_text(&self.port),
            identity_file: clone_text(&self.identity_file),
            proxy_jump: clone_text(&self.proxy_jump),
            forward_agent: clone_text(&self.forward_agent),
            password: clone_text(&self.password),
        }
    }
}

/// Whether two optional strings hold the same text, or are both unset.
pub fn same_text(a: &Option<String>, b: &Option<String>) -> (r: bool)
    ensures
        r == (text_of(*a) == text_of(*b)),
{
    match (a, b) {
        (Some(x), Some(y)) => *x == *y,
        (None, None) => true,
        _ => false,
    }
}

impl PartialEq for HostEntry {
    /// Two profiles are equal when they have the same name and the same
    /// fields with the same values.
    fn eq(&self, other: &Self) -> (r: bool) {
        self.name == other.name && same_text(&self.hostname, &other.hostname) && same_text(
            &self.user,
            &other.user,
        ) && same_text(&self.port, &other.port) && same_text(
            &self.identity_file,
            &other.identity_file,
        ) && same_text(&self.proxy_jump, &other.proxy_jump) && same_text(
            &self.forward_agent,
            &other.forward_agent,
        ) && same_text(&self.password, &other.password)
    }
}

impl PartialEqSpecImpl for HostEntry {
    open spec fn obeys_eq_spec() -> bool {
        true
    }

    open spec fn eq_spec(&self, other: &Self) -> bool {
        self@ == other@
    }
}

impl HostEntry {
    /// A profile with the given name and no other field set.
    pub fn named(name: String) -> (r: HostEntry)
        ensures
            r@ == HostView::named(name@),
    {
        HostEntry {
            name,
            hostname: None,
            user: None,
            port: None,
            identity_file: None,
            proxy_jump: None,
            forward_agent: None,
            password: None,
        }
    }

    /// Makes a profile from its name. A profile with an empty name is an
    /// error: the result is `None` exactly when `name` is empty.
    pub fn new(name: String) -> (r: Option<HostEntry>)
        ensures
            match r {
                Some(h) => name@.len() > 0 && h@ == HostView::named(name@),
                None => name@.len() == 0,
            },
    {
        if name.as_str().is_empty() {
            None
        } else {
            Some(HostEntry::named(name))
        }
    }

    /// Whether the profile is valid: whether its name is not empty.
    pub fn has_name(&self) -> (r: bool)
        ensures
            r == self@.valid(),
    {
        !self.name.as_str().is_empty()
    }

    /// The value of a field, where it is set.
    pub fn field(&self, f: Field) -> (r: Option<&String>)
        ensures
            match r {
                Some(v) => self@.get(f) == Some(v@),
                None => self@.get(f) is None,
            },
    {
        match f {
            Field::Name => Some(&self.name),
            Field::HostName => self.hostname.as_ref(),
            Field::User => self.user.as_ref(),
            Field::Port => self.port.as_ref(),
            Field::IdentityFile => self.identity_file.as_ref(),
            Field::ProxyJump => self.proxy_jump.as_ref(),
            Field::ForwardAgent => self.forward_agent.as_ref(),
            Field::Password => self.password.as_ref(),
        }
    }

    /// Sets a field to `value`.
    pub fn set_field(&mut self, f: Field, value: String)
        ensures
            final(self)@ == old(self)@.with(f, value@),
    {
        match f {
            Field::Name => {
                self.name = value;
            },
            Field::HostName => {
                self.hostname = Some(value);
            },
            Field::User => {
                self.user = Some(value);
            },
            Field::Port => {
                self.port = Some(value);
            },
            Field::IdentityFile => {
                self.identity_file = Some(value);
            },
            Field::ProxyJump => {
                self.proxy_jump = Some(value);
            },
            Field::ForwardAgent => {
                self.forward_agent = Some(value);
            },
            Field::Password => {
                self.password = Some(value);
            },
        }
    }
}

/// The string behind an optional field, made empty first where the field was
/// not set.
fn text_mut(slot: &mut Option<String>) -> (r: &mut String)
    ensures
        r@ == match text_of(*old(slot)) {
            Some(v) => v,
            None => Seq::empty(),
        },
        text_of(*final(slot)) == Some(final(r)@),
{
    if slot.is_none() {
        *slot = Some(String::new());
    }
    slot.as_mut().unwrap()
}

/// The string that editing position `idx` of a profile changes. An optional
/// field that was not set becomes the empty string first. Whatever the caller
/// then writes through the result is the new value of that field, and the
/// other fields keep theirs. For an `idx` that names no field the result is
/// `None` and the profile is left as it is.
pub fn get_edit_field_mut<'a>(host: &'a mut HostEntry, idx: usize) -> (r: Option<&'a mut String>)
    ensures
        match (Field::at(idx as int), r) {
            (Some(f), Some(s)) => {
                &&& s@ == old(host)@.text(f)
                &&& final(host)@ == old(host)@.with(f, final(s)@)
            },
            (None, None) => *final(host) == *old(host),
            _ => false,
        },
{
    match idx {
        0 => Some(&mut host.name),
        1 => Some(text_mut(&mut host.hostname)),
        2 => Some(text_mut(&mut host.user)),
        3 => Some(text_mut(&mut host.port)),
        4 => Some(text_mut(&mut host.identity_file)),
        5 => Some(text_mut(&mut host.proxy_jump)),
        6 => Some(text_mut(&mut host.forward_agent)),
        7 => Some(text_mut(&mut host.password)),
        _ => None,
    }
}

} // verus!
