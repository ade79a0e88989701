//! Text newtypes used by the shared presentation code: display text, link
//! targets, CSS classes and inline styles.
use vstd::prelude::*;

use crate::text::{chars_of, copy_string, owned, trim_ws, trim_ws_bounds};
use vstd::std_specs::cmp::PartialEqSpecImpl;

verus! {

/// Text shown to a reader.
#[derive(Debug)]
pub struct DisplayText(String);

/// A link target.
#[derive(Debug)]
pub struct Href(String);

/// A space-separated list of CSS classes.
#[derive(Debug)]
pub struct CssClass(String);

/// The value of an HTML `style` attribute.
#[derive(Debug)]
pub struct InlineStyle(String);

impl View for DisplayText {
    type V = Seq<char>;

    closed spec fn view(&self) -> Seq<char> {
        self.0@
    }
}

impl View for Href {
    type V = Seq<char>;

    closed spec fn view(&self) -> Seq<char> {
        self.0@
    }
}

impl View for CssClass {
    type V = Seq<char>;

    closed spec fn view(&self) -> Seq<char> {
        self.0@
    }
}

impl View for InlineStyle {
    type V = Seq<char>;

    closed spec fn view(&self) -> Seq<char> {
        self.0@
    }
}

impl Clone for DisplayText {
    fn clone(&self) -> (res: Self)
        ensures
            res@ == self@,
    {
        DisplayText(copy_string(&self.0))
    }
}

impl Clone for Href {
    fn clone(&self) -> (res: Self)
        ensures
            res@ == self@,
    {
        Href(copy_string(&self.0))
    }
}

impl Clone for CssClass {
    fn clone(&self) -> (res: Self)
        ensures
            res@ == self@,
    {
        CssClass(copy_string(&self.0))
    }
}

impl Clone for InlineStyle {
    fn clone(&self) -> (res: Self)
        ensures
            res@ == self@,
    {
        InlineStyle(copy_string(&self.0))
    }
}

impl PartialEq for DisplayText {
    fn eq(&self, other: &Self) -> (res: bool) {
        self.0 == other.0
    }
}

impl PartialEqSpecImpl for DisplayText {
    open spec fn obeys_eq_spec() -> bool {
        true
    }

    open spec fn eq_spec(&self, other: &Self) -> bool {
        self@ == other@
    }
}

impl Eq for DisplayText {}

impl PartialEq for Href {
    fn eq(&self, other: &Self) -> (res: bool) {
        self.0 == other.0
    }
}

impl PartialEqSpecImpl for Href {
    open spec fn obeys_eq_spec() -> bool {
        true
    }

    open spec fn eq_spec(&self, other: &Self) -> bool {
        self@ == other@
    }
}

impl Eq for Href {}

impl PartialEq for CssClass {
    fn eq(&self, other: &Self) -> (res: bool) {
        self.0 == other.0
    }
}

impl PartialEqSpecImpl for CssClass {
    open spec fn obeys_eq_spec() -> bool {
        true
    }

    open spec fn eq_spec(&self, other: &Self) -> bool {
        self@ == other@
    }
}

impl Eq for CssClass {}

impl PartialEq for InlineStyle {
    fn eq(&self, other: &Self) -> (res: bool) {
        self.0 == other.0
    }
}

impl PartialEqSpecImpl for InlineStyle {
    open spec fn obeys_eq_spec() -> bool {
        true
    }

    open spec fn eq_spec(&self, other: &Self) -> bool {
        self@ == other@
    }
}

impl Eq for InlineStyle {}

impl Default for DisplayText {
    fn default() -> (res: Self)
        ensures
            res@ == Seq::<char>::empty(),
    {
        DisplayText(String::new())
    }
}

impl Default for CssClass {
    fn default() -> (res: Self)
        ensures
            res@ == Seq::<char>::empty(),
    {
        CssClass(String::new())
    }
}

impl Default for InlineStyle {
    fn default() -> (res: Self)
        ensures
            res@ == Seq::<char>::empty(),
    {
        InlineStyle(String::new())
    }
}

impl DisplayText {
    /// Display text that takes over `value`.
    pub fn from_string(value: String) -> (res: Self)
        ensures
            res@ == value@,
    {
        DisplayText(value)
    }

    pub fn new(value: &str) -> (res: Self)
        ensures
            res@ == value@,
    {
        DisplayText(owned(value))
    }

    pub fn as_str(&self) -> (res: &str)
        ensures
            res@ == self@,
    {
        self.0.as_str()
    }

    pub fn is_empty(&self) -> (res: bool)
        ensures
            res == (self@.len() == 0),
    {
        self.0.as_str().is_empty()
    }

    pub fn into_string(self) -> (res: String)
        ensures
            res@ == self@,
    {
        self.0
    }
}

impl Href {
    pub fn new(value: &str) -> (res: Self)
        ensures
            res@ == value@,
    {
        Href(owned(value))
    }

    pub fn as_str(&self) -> (res: &str)
        ensures
            res@ == self@,
    {
        self.0.as_str()
    }

    pub fn into_string(self) -> (res: String)
        ensures
            res@ == self@,
    {
        self.0
    }
}

impl CssClass {
    pub fn new(value: &str) -> (res: Self)
        ensures
            res@ == value@,
    {
        CssClass(owned(value))
    }

    pub fn as_str(&self) -> (res: &str)
        ensures
            res@ == self@,
    {
        self.0.as_str()
    }

    /// Whether the class list holds nothing but whitespace.
    pub fn is_empty(&self) -> (res: bool)
        ensures
            res == (trim_ws(self@).len() == 0),
    {
        let v = chars_of(self.0.as_str());
        let (start, end) = trim_ws_bounds(&v);
        start == end
    }

    pub fn into_string(self) -> (res: String)
        ensures
            res@ == self@,
    {
        self.0
    }
}

impl InlineStyle {
    pub fn new(value: &str) -> (res: Self)
        ensures
            res@ == value@,
    {
        InlineStyle(owned(value))
    }

    pub fn as_str(&self) -> (res: &str)
        ensures
            res@ == self@,
    {
        self.0.as_str()
    }

    pub fn into_string(self) -> (res: String)
        ensures
            res@ == self@,
    {
        self.0
    }
}

impl From<String> for DisplayText {
    fn from(value: String) -> (res: Self)
        ensures
            res@ == value@,
    {
        DisplayText(value)
    }
}

impl vstd::std_specs::convert::FromSpecImpl<String> for DisplayText {
    open spec fn obeys_from_spec() -> bool {
        true
    }

    closed spec fn from_spec(v: String) -> Self {
        DisplayText(v)
    }
}

impl<'a> From<&'a str> for DisplayText {
    fn from(value: &'a str) -> (res: Self)
        ensures
            res@ == value@,
    {
        DisplayText(owned(value))
    }
}

impl<'a> vstd::std_specs::convert::FromSpecImpl<&'a str> for DisplayText {
    open spec fn obeys_from_spec() -> bool {
        false
    }

    closed spec fn from_spec(v: &'a str) -> Self {
        choose|r: Self| r@ == v@
    }
}

impl From<String> for Href {
    fn from(value: String) -> (res: Self)
        ensures
            res@ == value@,
    {
        Href(value)
    }
}

impl vstd::std_specs::convert::FromSpecImpl<String> for Href {
    open spec fn obeys_from_spec() -> bool {
        true
    }

    closed spec fn from_spec(v: String) -> Self {
        Href(v)
    }
}

impl<'a> From<&'a str> for Href {
    fn from(value: &'a str) -> (res: Self)
        ensures
            res@ == value@,
    {
        Href(owned(value))
    }
}

impl<'a> vstd::std_specs::convert::FromSpecImpl<&'a str> for Href {
    open spec fn obeys_from_spec() -> bool {
        false
    }

    closed spec fn from_spec(v: &'a str) -> Self {
        choose|r: Self| r@ == v@
    }
}

impl From<String> for CssClass {
    fn from(value: String) -> (res: Self)
        ensures
            res@ == value@,
    {
        CssClass(value)
    }
}

impl vstd::std_specs::convert::FromSpecImpl<String> for CssClass {
    open spec fn obeys_from_spec() -> bool {
        true
    }

    closed spec fn from_spec(v: String) -> Self {
        CssClass(v)
    }
}

impl<'a> From<&'a str> for CssClass {
    fn from(value: &'a str) -> (res: Self)
        ensures
            res@ == value@,
    {
        CssClass(owned(value))
    }
}

impl<'a> vstd::std_specs::convert::FromSpecImpl<&'a str> for CssClass {
    open spec fn obeys_from_spec() -> bool {
        false
    }

    closed spec fn from_spec(v: &'a str) -> Self {
        choose|r: Self| r@ == v@
    }
}

impl From<String> for InlineStyle {
    fn from(value: String) -> (res: Self)
        ensures
            res@ == value@,
    {
        InlineStyle(value)
    }
}

impl vstd::std_specs::convert::FromSpecImpl<String> for InlineStyle {
    open spec fn obeys_from_spec() -> bool {
        true
    }

    closed spec fn from_spec(v: String) -> Self {
        InlineStyle(v)
    }
}

impl<'a> From<&'a str> for InlineStyle {
    fn from(value: &'a str) -> (res: Self)
        ensures
            res@ == value@,
    {
        InlineStyle(owned(value))
    }
}

impl<'a> vstd::std_specs::convert::FromSpecImpl<&'a str> for InlineStyle {
    open spec fn obeys_from_spec() -> bool {
        false
    }

    closed spec fn from_spec(v: &'a str) -> Self {
        choose|r: Self| r@ == v@
    }
}

} // verus!
