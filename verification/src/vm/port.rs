use vstd::prelude::*;
use crate::general::text::{str_to_chars, string_of, parse_usize, spec_parse_usize, usize_to_string, spec_decimal};
use crate::dev_emulators::dev_utilities::names::{right_dev_name_chars, spec_right_dev_name};

verus! {

/// Where a device is connected: a port number, a port name, or any port.
pub enum Port {
    Number(usize),
    Name(String),
    Any,
}

/// A port, as plain values.
pub enum PortView {
    Number(usize),
    Name(Seq<char>),
    Any,
}

impl Port {
    pub open spec fn view(&self) -> PortView {
        match self {
            Port::Number(n) => PortView::Number(*n),
            Port::Name(s) => PortView::Name(s@),
            Port::Any => PortView::Any,
        }
    }

    /// A port from its text: a number when the text reads as one, else a
    /// name.
    pub fn new(s: &str) -> (r: Self)
        ensures
            match spec_parse_usize(s@) {
                Some(n) => r.view() == PortView::Number(n),
                None => r.view() == PortView::Name(s@),
            },
    {
        let v = str_to_chars(s);
        match parse_usize(v.as_slice()) {
            Some(n) => Port::Number(n),
            None => Port::Name(string_of(v.as_slice())),
        }
    }

    pub fn new_any() -> (r: Self)
        ensures
            r.view() == PortView::Any,
    {
        Port::Any
    }

    /// A right port name: `[a-z][a-z0-9\-]*`.
    pub fn right_port_name(s: &str) -> (r: bool)
        ensures
            r == spec_right_dev_name(s@),
    {
        let v = str_to_chars(s);
        right_dev_name_chars(&v)
    }

    /// The port's text: its name, its number in decimal, or `any`.
    pub fn to_name(&self) -> (s: String)
        ensures
            s@ == match self.view() {
                PortView::Name(n) => n,
                PortView::Number(k) => spec_decimal(k as nat),
                PortView::Any => seq!['a', 'n', 'y'],
            },
    {
        match self {
            Port::Name(s) => s.clone(),
            Port::Number(n) => usize_to_string(*n),
            Port::Any => string_of(&['a', 'n', 'y']),
        }
    }

    pub fn to_string(&self) -> (s: String)
        ensures
            s@ == match self.view() {
                PortView::Name(n) => n,
                PortView::Number(k) => spec_decimal(k as nat),
                PortView::Any => seq!['a', 'n', 'y'],
            },
    {
        self.to_name()
    }

    /// Whether two ports are the same.
    pub fn same(&self, other: &Port) -> (r: bool)
        ensures
            r == (self.view() == other.view()),
    {
        match (self, other) {
            (Port::Number(a), Port::Number(b)) => *a == *b,
            (Port::Name(a), Port::Name(b)) => {
                let r = *a == *b;
                r
            }
            (Port::Any, Port::Any) => true,
            _ => false,
        }
    }

    pub fn clone_port(&self) -> (r: Port)
        ensures
            r.view() == self.view(),
    {
        match self {
            Port::Number(n) => Port::Number(*n),
            Port::Name(s) => Port::Name(s.clone()),
            Port::Any => Port::Any,
        }
    }
}

}
