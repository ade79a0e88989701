//! Presentation helpers: class lists, motion presets and document titles.
use vstd::prelude::*;

use crate::text::{owned, push_char, push_str, str_eq, trim, trim_ws};
use crate::types::{CssClass, InlineStyle};

verus! {

/// The decimal digit for `d < 10`.
pub open spec fn digit_char(d: nat) -> char {
    if d == 0 {
        '0'
    } else if d == 1 {
        '1'
    } else if d == 2 {
        '2'
    } else if d == 3 {
        '3'
    } else if d == 4 {
        '4'
    } else if d == 5 {
        '5'
    } else if d == 6 {
        '6'
    } else if d == 7 {
        '7'
    } else if d == 8 {
        '8'
    } else {
        '9'
    }
}

/// The decimal representation of `n`, without leading zeros.
pub open spec fn decimal(n: nat) -> Seq<char>
    decreases n,
{
    if n < 10 {
        seq![digit_char(n)]
    } else {
        decimal(n / 10).push(digit_char(n % 10))
    }
}

fn digit(d: u64) -> (res: char)
    requires
        d < 10,
    ensures
        res == digit_char(d as nat),
{
    if d == 0 {
        '0'
    } else if d == 1 {
        '1'
    } else if d == 2 {
        '2'
    } else if d == 3 {
        '3'
    } else if d == 4 {
        '4'
    } else if d == 5 {
        '5'
    } else if d == 6 {
        '6'
    } else if d == 7 {
        '7'
    } else if d == 8 {
        '8'
    } else {
        '9'
    }
}

/// Appends the decimal representation of `n`.
pub fn push_decimal(s: &mut String, n: u64)
    ensures
        final(s)@ == old(s)@ + decimal(n as nat),
    decreases n,
{
    if n >= 10 {
        push_decimal(s, n / 10);
    }
    push_char(s, digit(n % 10));
}

/// The decimal representation of `n`.
pub fn decimal_string(n: u64) -> (res: String)
    ensures
        res@ == decimal(n as nat),
{
    let mut s = String::new();
    push_decimal(&mut s, n);
    s
}

/// `base`, followed by a space and `extra` unless `extra` is blank.
pub open spec fn joined_classes(base: Seq<char>, extra: Seq<char>) -> Seq<char> {
    if trim_ws(extra).len() == 0 {
        base
    } else {
        base + seq![' '] + extra
    }
}

/// Joins a base class list with an optional extra class list.
pub fn join(base: &str, extra: &CssClass) -> (res: String)
    ensures
        res@ == joined_classes(base@, extra@),
{
    if extra.is_empty() {
        owned(base)
    } else {
        let mut res = owned(base);
        push_char(&mut res, ' ');
        push_str(&mut res, extra.as_str());
        res
    }
}

/// The inline style of a staggered reveal:
/// `--motion-delay: <delay>ms; --motion-distance: <distance>px;`.
pub open spec fn reveal_style_text(delay_ms: nat, distance_px: nat) -> Seq<char> {
    "--motion-delay: "@ + decimal(delay_ms) + "ms; --motion-distance: "@ + decimal(distance_px)
        + "px;"@
}

fn reveal_style(delay_ms: u64, distance_px: u64) -> (res: InlineStyle)
    ensures
        res@ == reveal_style_text(delay_ms as nat, distance_px as nat),
{
    let mut s = owned("--motion-delay: ");
    push_decimal(&mut s, delay_ms);
    push_str(&mut s, "ms; --motion-distance: ");
    push_decimal(&mut s, distance_px);
    push_str(&mut s, "px;");
    InlineStyle::new(s.as_str())
}

/// The reveal of a page's first surface: no delay, 24px travel.
pub fn page_entry_reveal_style() -> (res: InlineStyle)
    ensures
        res@ == reveal_style_text(0, 24),
{
    reveal_style(0, 24)
}

/// The reveal of a following surface: 90ms delay, 18px travel.
pub fn surface_reveal_style() -> (res: InlineStyle)
    ensures
        res@ == reveal_style_text(90, 18),
{
    reveal_style(90, 18)
}

/// The document title of a project page: the trimmed site name and page title joined
/// by ` | `, either alone when the other is empty, and the site name alone when both
/// are the same.
pub open spec fn document_title(site_name: Seq<char>, page_title: Seq<char>) -> Seq<char> {
    let site = trim_ws(site_name);
    let page = trim_ws(page_title);
    if site.len() == 0 && page.len() == 0 {
        Seq::empty()
    } else if site.len() == 0 {
        page
    } else if page.len() == 0 {
        site
    } else if site == page {
        site
    } else {
        site + seq![' ', '|', ' '] + page
    }
}

pub fn project_document_title(site_name: &str, page_title: &str) -> (res: String)
    ensures
        res@ == document_title(site_name@, page_title@),
{
    let site = trim(site_name);
    let page = trim(page_title);
    let site_empty = site.as_str().is_empty();
    let page_empty = page.as_str().is_empty();
    if site_empty && page_empty {
        String::new()
    } else if site_empty {
        page
    } else if page_empty {
        site
    } else if str_eq(site.as_str(), page.as_str()) {
        site
    } else {
        let mut res = site;
        push_str(&mut res, " | ");
        push_str(&mut res, page.as_str());
        proof {
            reveal_strlit(" | ");
            assert(" | "@ =~= seq![' ', '|', ' ']);
        }
        res
    }
}

} // verus!
