//! Directory-listing rendering.
//!
//! A listing shows the directory's children sorted by name: one anchor
//! per entry, a parent link, and for files a last-modified timestamp and
//! a human-readable size in binary units.

use crate::strutil::{digit_to_char, digit_char, lex_le, push_char, spec_decimal, u64_to_dec};
use vstd::multiset::Multiset;
use vstd::prelude::*;

verus! {

/// One second past the last timestamp rendered with a four-digit year
/// (the end of year 9999).
pub const TIMESTAMP_LIMIT: i64 = 253402300800;

/// What chrono's UTC `%Y-%m-%d %H:%M:%S` formatting shows for a Unix
/// timestamp: a pure function of the seconds value.
pub uninterp spec fn timestamp_display(secs: int) -> Seq<char>;

/// Relies on `chrono::DateTime::from_timestamp`, which accepts every
/// second count from 1970 up to year 9999, and on chrono's UTC
/// `%Y-%m-%d %H:%M:%S` formatting, a pure function of that value.
#[verifier::external_body]
fn format_timestamp(secs: i64) -> (r: String)
    requires
        0 <= secs < TIMESTAMP_LIMIT,
    ensures
        r@ == timestamp_display(secs as int),
{
    match chrono::DateTime::<chrono::Utc>::from_timestamp(secs, 0) {
        Some(dt) => dt.format("%Y-%m-%d %H:%M:%S").to_string(),
        None => String::new(),
    }
}

/// `h` hundredths rendered with two decimal places.
pub open spec fn spec_two_dec(h: nat) -> Seq<char> {
    spec_decimal(h / 100) + seq!['.'] + seq![digit_char((h / 10) % 10), digit_char(h % 10)]
}

/// `b` bytes scaled to hundredths of the given unit, rounded half up.
pub open spec fn spec_scaled(b: nat, unit: nat) -> nat
    recommends
        unit > 0,
{
    (b * 100 + unit / 2) / unit
}

/// A byte count in human-readable binary units: plain bytes under 1024,
/// then KB, MB and GB at successive 1024 thresholds, always with two
/// decimal places.
pub open spec fn spec_bytes_to_human(b: u64) -> Seq<char> {
    if b < 1024 {
        spec_two_dec((b * 100) as nat) + " B"@
    } else if b < 1048576 {
        spec_two_dec(spec_scaled(b as nat, 1024)) + " KB"@
    } else if b < 1073741824 {
        spec_two_dec(spec_scaled(b as nat, 1048576)) + " MB"@
    } else {
        spec_two_dec(spec_scaled(b as nat, 1073741824)) + " GB"@
    }
}

fn two_dec(h: u64) -> (r: String)
    ensures
        r@ == spec_two_dec(h as nat),
{
    let mut s = u64_to_dec(h / 100);
    push_char(&mut s, '.');
    push_char(&mut s, digit_to_char((h / 10) % 10));
    push_char(&mut s, digit_to_char(h % 10));
    proof {
        assert(s@ =~= spec_two_dec(h as nat));
    }
    s
}

/// Render a byte count in binary units with two decimal places.
pub fn bytes_to_human(bytes: u64) -> (r: String)
    ensures
        r@ == spec_bytes_to_human(bytes),
{
    if bytes < 1024 {
        let mut s = two_dec(bytes * 100);
        s.append(" B");
        proof {
            assert(s@ =~= spec_bytes_to_human(bytes));
        }
        s
    } else if bytes < 1048576 {
        let num: u128 = bytes as u128 * 100 + 512;
        let h128: u128 = num / 1024;
        proof {
            vstd::arithmetic::div_mod::lemma_div_is_ordered(num as int, 104858012, 1024);
            assert(h128 == spec_scaled(bytes as nat, 1024));
        }
        let mut s = two_dec(h128 as u64);
        s.append(" KB");
        proof {
            assert(s@ =~= spec_bytes_to_human(bytes));
        }
        s
    } else if bytes < 1073741824 {
        let num: u128 = bytes as u128 * 100 + 524288;
        let h128: u128 = num / 1048576;
        proof {
            vstd::arithmetic::div_mod::lemma_div_is_ordered(num as int, 107374706588, 1048576);
            assert(h128 == spec_scaled(bytes as nat, 1048576));
        }
        let mut s = two_dec(h128 as u64);
        s.append(" MB");
        proof {
            assert(s@ =~= spec_bytes_to_human(bytes));
        }
        s
    } else {
        let num: u128 = bytes as u128 * 100 + 536870912;
        let h128: u128 = num / 1073741824;
        proof {
            vstd::arithmetic::div_mod::lemma_div_is_ordered(
                num as int,
                1844674407907826072412,
                1073741824,
            );
            assert(h128 == spec_scaled(bytes as nat, 1073741824));
        }
        let mut s = two_dec(h128 as u64);
        s.append(" GB");
        proof {
            assert(s@ =~= spec_bytes_to_human(bytes));
        }
        s
    }
}

/// One directory child as the caller read it from the filesystem: its
/// name, kind, size in bytes and last-modified time in seconds since the
/// Unix epoch.
pub struct DirEntry {
    pub name: String,
    pub is_dir: bool,
    pub size: u64,
    pub modified_secs: i64,
}

/// Entries stand in ascending name order.
pub open spec fn entries_sorted(s: Seq<DirEntry>) -> bool {
    forall|i: int, j: int| 0 <= i < j < s.len() ==> lex_le(s[i].name@, s[j].name@)
}

fn insert_sorted(out: &mut Vec<DirEntry>, e: DirEntry)
    requires
        entries_sorted(old(out)@),
    ensures
        entries_sorted(final(out)@),
        final(out)@.to_multiset() == old(out)@.to_multiset().insert(e),
{
    let n = out.len();
    let mut p: usize = 0;
    while p < n
        invariant
            p <= n,
            n == out@.len(),
            out@ == old(out)@,
            forall|j: int| 0 <= j < p ==> lex_le(out@[j].name@, e.name@),
        ensures
            p <= n,
            out@ == old(out)@,
            forall|j: int| 0 <= j < p ==> lex_le(out@[j].name@, e.name@),
            p < n ==> !lex_le(out@[p as int].name@, e.name@),
        decreases n - p,
    {
        if !crate::strutil::str_le(out[p].name.as_str(), e.name.as_str()) {
            break;
        }
        p = p + 1;
    }
    let ghost pre = out@;
    out.insert(p, e);
    proof {
        assert(out@ =~= pre.subrange(0, p as int) + seq![e] + pre.subrange(p as int, n as int));
        assert forall|i: int, j: int|
            0 <= i < j < out@.len() implies lex_le(out@[i].name@, out@[j].name@) by {
            if i == p {
                crate::strutil::lemma_lex_le_connected(pre[p as int].name@, e.name@);
                if j - 1 > p {
                    crate::strutil::lemma_lex_le_trans(
                        e.name@,
                        pre[p as int].name@,
                        pre[j - 1].name@,
                    );
                }
            } else if j == p {
            } else if i < p && j > p {
                assert(lex_le(pre[i].name@, pre[j - 1].name@));
            }
        }
        broadcast use vstd::seq_lib::group_to_multiset_ensures;

        vstd::seq_lib::lemma_multiset_commutative(
            pre.subrange(0, p as int) + seq![e],
            pre.subrange(p as int, n as int),
        );
        vstd::seq_lib::lemma_multiset_commutative(pre.subrange(0, p as int), seq![e]);
        vstd::seq_lib::lemma_multiset_commutative(
            pre.subrange(0, p as int),
            pre.subrange(p as int, n as int),
        );
        assert(pre =~= pre.subrange(0, p as int) + pre.subrange(p as int, n as int));
        assert(seq![e] =~= Seq::<DirEntry>::empty().push(e));
        assert(out@.to_multiset() =~= pre.to_multiset().insert(e));
    }
}

/// Sort directory entries by name, ascending; the result holds exactly
/// the given entries.
pub fn sort_entries(entries: Vec<DirEntry>) -> (r: Vec<DirEntry>)
    ensures
        entries_sorted(r@),
        r@.to_multiset() == entries@.to_multiset(),
{
    let ghost orig = entries@;
    let mut rest = entries;
    let mut out: Vec<DirEntry> = Vec::new();
    proof {
        broadcast use vstd::seq_lib::group_to_multiset_ensures;

        assert(out@.to_multiset().add(rest@.to_multiset()) =~= orig.to_multiset());
    }
    loop
        invariant
            entries_sorted(out@),
            out@.to_multiset().add(rest@.to_multiset()) == orig.to_multiset(),
        ensures
            rest@.len() == 0,
            entries_sorted(out@),
            out@.to_multiset().add(rest@.to_multiset()) == orig.to_multiset(),
        decreases rest@.len(),
    {
        let ghost pre_rest = rest@;
        let ghost pre_out = out@;
        match rest.pop() {
            Some(e) => {
                proof {
                    broadcast use vstd::seq_lib::group_to_multiset_ensures;

                    assert(rest@ =~= pre_rest.remove(pre_rest.len() - 1));
                    assert(rest@.to_multiset() =~= pre_rest.to_multiset().remove(
                        pre_rest.last(),
                    ));
                }
                insert_sorted(&mut out, e);
                proof {
                    broadcast use vstd::seq_lib::group_to_multiset_ensures;

                    assert(pre_rest.to_multiset().count(pre_rest.last()) > 0) by {
                        assert(pre_rest.contains(pre_rest.last()));
                    }
                    assert(out@.to_multiset().add(rest@.to_multiset()) =~= orig.to_multiset());
                }
            },
            None => {
                break;
            },
        }
    }
    proof {
        broadcast use vstd::seq_lib::group_to_multiset_ensures;

        assert(rest@.to_multiset() =~= Multiset::<DirEntry>::empty());
        assert(out@.to_multiset() =~= orig.to_multiset());
    }
    out
}

/// The timestamp cell of a file entry: chrono's display for timestamps
/// from 1970 to year 9999, empty outside that range.
pub open spec fn spec_timestamp_cell(secs: i64) -> Seq<char> {
    if 0 <= secs < TIMESTAMP_LIMIT {
        timestamp_display(secs as int)
    } else {
        Seq::<char>::empty()
    }
}

/// The `<li>` item of one entry: an anchor to `prefix/name` (directories
/// shown and linked with a trailing `/`), and for files the timestamp and
/// human-readable size cells.
pub open spec fn spec_entry_li(prefix: Seq<char>, e: DirEntry) -> Seq<char> {
    if e.is_dir {
        "<li><a href=\""@ + prefix + seq!['/'] + e.name@ + "\">"@ + e.name@ + "/</a></li>"@
    } else {
        "<li><a href=\""@ + prefix + seq!['/'] + e.name@ + "\">"@ + e.name@ + "</a> <span>"@
            + spec_timestamp_cell(e.modified_secs) + "</span> <span>"@ + spec_bytes_to_human(e.size)
            + "</span></li>"@
    }
}

fn render_entry_li(prefix: &str, e: &DirEntry) -> (r: String)
    ensures
        r@ == spec_entry_li(prefix@, *e),
{
    let mut s = "<li><a href=\"".to_owned();
    s.append(prefix);
    push_char(&mut s, '/');
    s.append(e.name.as_str());
    s.append("\">");
    s.append(e.name.as_str());
    if e.is_dir {
        s.append("/</a></li>");
    } else {
        s.append("</a> <span>");
        if 0 <= e.modified_secs && e.modified_secs < TIMESTAMP_LIMIT {
            let ts = format_timestamp(e.modified_secs);
            s.append(ts.as_str());
        }
        s.append("</span> <span>");
        let hs = bytes_to_human(e.size);
        s.append(hs.as_str());
        s.append("</span></li>");
    }
    proof {
        assert(s@ =~= spec_entry_li(prefix@, *e));
    }
    s
}

/// The listing body: the items of the entries, in order.
pub open spec fn spec_listing(prefix: Seq<char>, entries: Seq<DirEntry>) -> Seq<char>
    decreases entries.len(),
{
    if entries.len() == 0 {
        Seq::<char>::empty()
    } else {
        spec_entry_li(prefix, entries.first()) + spec_listing(prefix, entries.drop_first())
    }
}

proof fn lemma_listing_push(prefix: Seq<char>, s: Seq<DirEntry>, e: DirEntry)
    ensures
        spec_listing(prefix, s.push(e)) == spec_listing(prefix, s) + spec_entry_li(prefix, e),
    decreases s.len(),
{
    if s.len() == 0 {
        assert(s.push(e).drop_first() =~= Seq::<DirEntry>::empty());
        assert(s.push(e).first() == e);
        assert(spec_listing(prefix, s.push(e).drop_first()) =~= Seq::<char>::empty());
        assert(spec_listing(prefix, s.push(e)) =~= spec_entry_li(prefix, e));
        assert(spec_listing(prefix, s) =~= Seq::<char>::empty());
        assert(spec_listing(prefix, s) + spec_entry_li(prefix, e) =~= spec_entry_li(prefix, e));
    } else {
        lemma_listing_push(prefix, s.drop_first(), e);
        assert(s.push(e).drop_first() =~= s.drop_first().push(e));
        assert(spec_listing(prefix, s.push(e)) =~= spec_listing(prefix, s) + spec_entry_li(
            prefix,
            e,
        ));
    }
}

/// The anchor prefix of a listing: the URL path without its trailing
/// slash, so that `prefix/name` is the child's URL.
pub open spec fn spec_href_prefix(u: Seq<char>) -> Seq<char> {
    if u.len() > 0 && u[u.len() - 1] == '/' {
        u.drop_last()
    } else {
        u
    }
}

/// Everything before the listing body: the heading and the single
/// parent-directory link.
pub open spec fn spec_html_head(url: Seq<char>) -> Seq<char> {
    "<!DOCTYPE html><html><body><h1>Index of "@ + url
        + "</h1><ul><li><a href=\"..\">..</a></li>"@
}

/// Everything after the listing body.
pub open spec fn spec_html_tail() -> Seq<char> {
    "</ul></body></html>"@
}

/// The whole listing document for a URL path and its entries.
pub open spec fn spec_directory_html(url: Seq<char>, entries: Seq<DirEntry>) -> Seq<char> {
    spec_html_head(url) + spec_listing(spec_href_prefix(url), entries) + spec_html_tail()
}

/// Render the listing of a directory: its entries sorted by name,
/// each shown once, after the single parent-directory link.
pub fn get_directory_html(url_path: &str, entries: Vec<DirEntry>) -> (r: String)
    ensures
        exists|s: Seq<DirEntry>|
            s.to_multiset() == entries@.to_multiset() && entries_sorted(s) && r@
                == spec_directory_html(url_path@, s),
{
    let ghost orig = entries@;
    let sorted = sort_entries(entries);
    let ulen = url_path.unicode_len();
    let prefix: &str = if ulen > 0 && url_path.get_char(ulen - 1) == '/' {
        let p = url_path.substring_char(0, ulen - 1);
        proof {
            assert(p@ =~= url_path@.drop_last());
        }
        p
    } else {
        url_path
    };
    let mut s = "<!DOCTYPE html><html><body><h1>Index of ".to_owned();
    s.append(url_path);
    s.append("</h1><ul><li><a href=\"..\">..</a></li>");
    proof {
        assert(s@ =~= spec_html_head(url_path@) + spec_listing(prefix@, sorted@.take(0)));
    }
    let n = sorted.len();
    let mut i: usize = 0;
    while i < n
        invariant
            i <= n,
            n == sorted@.len(),
            prefix@ == spec_href_prefix(url_path@),
            entries_sorted(sorted@),
            sorted@.to_multiset() == orig.to_multiset(),
            s@ == spec_html_head(url_path@) + spec_listing(prefix@, sorted@.take(i as int)),
        decreases n - i,
    {
        let li = render_entry_li(prefix, &sorted[i]);
        s.append(li.as_str());
        proof {
            assert(sorted@.take(i + 1) =~= sorted@.take(i as int).push(sorted@[i as int]));
            lemma_listing_push(prefix@, sorted@.take(i as int), sorted@[i as int]);
            assert(spec_html_head(url_path@) + spec_listing(prefix@, sorted@.take(i as int))
                + spec_entry_li(prefix@, sorted@[i as int]) =~= spec_html_head(url_path@) + (
            spec_listing(prefix@, sorted@.take(i as int)) + spec_entry_li(
                prefix@,
                sorted@[i as int],
            )));
        }
        i = i + 1;
    }
    s.append("</ul></body></html>");
    proof {
        assert(sorted@.take(n as int) =~= sorted@);
        assert(s@ == spec_directory_html(url_path@, sorted@));
    }
    s
}

proof fn lemma_listing_is_flatten(prefix: Seq<char>, entries: Seq<DirEntry>)
    ensures
        spec_listing(prefix, entries) == entries.map_values(
            |e: DirEntry| spec_entry_li(prefix, e),
        ).flatten(),
    decreases entries.len(),
{
    let f = |e: DirEntry| spec_entry_li(prefix, e);
    if entries.len() == 0 {
        assert(entries.map_values(f).len() == 0);
    } else {
        lemma_listing_is_flatten(prefix, entries.drop_first());
        assert(entries.map_values(f).drop_first() =~= entries.drop_first().map_values(f));
        assert(entries.map_values(f).first() == f(entries.first()));
    }
}

/// The rendered document is the head with its single parent link, then
/// exactly one `<li>` item per listed entry, in listing order, then the
/// closing tail.
pub proof fn lemma_directory_html_structure(url: Seq<char>, entries: Seq<DirEntry>)
    ensures
        spec_directory_html(url, entries) == spec_html_head(url) + entries.map_values(
            |e: DirEntry| spec_entry_li(spec_href_prefix(url), e),
        ).flatten() + spec_html_tail(),
        entries.map_values(|e: DirEntry| spec_entry_li(spec_href_prefix(url), e)).len()
            == entries.len(),
{
    lemma_listing_is_flatten(spec_href_prefix(url), entries);
}

} // verus!
