//! Human-readable rendering of byte counts and home-masked paths, and the
//! log directory layout.

use vstd::prelude::*;
use crate::text::{dec_digits, fmt_u64, has_prefix, starts_with, str_eq};
use crate::trash::{path_join, strip_trailing_slashes};

verus! {

/// Terminal presentation settings the front ends consult.
#[derive(Debug, Clone, PartialEq, Eq)]
pub struct UiConfig {
    pub color: bool,
    pub stdin_is_tty: bool,
    pub stdout_is_tty: bool,
    pub stderr_is_tty: bool,
    pub max_table_rows: usize,
    pub quiet: bool,
    pub verbose: bool,
}

/// `n` of `d`-sized units in tenths, rounded half up.
pub open spec fn tenths(n: nat, d: nat) -> nat
    recommends
        d > 0,
{
    (n * 10 + d / 2) / d
}

/// One decimal place: `12.3`.
pub open spec fn tenths_digits(t: nat) -> Seq<char> {
    dec_digits(t / 10) + "."@ + dec_digits(t % 10)
}

/// A byte count with a binary unit and one decimal place, bare bytes
/// below one KiB.
pub open spec fn format_bytes_spec(bytes: u64) -> Seq<char> {
    let b = bytes as nat;
    if b < 0x400 {
        dec_digits(b) + " B"@
    } else if b < 0x100000 {
        tenths_digits(tenths(b, 0x400)) + " KiB"@
    } else if b < 0x40000000 {
        tenths_digits(tenths(b, 0x100000)) + " MiB"@
    } else if b < 0x10000000000 {
        tenths_digits(tenths(b, 0x40000000)) + " GiB"@
    } else {
        tenths_digits(tenths(b, 0x10000000000)) + " TiB"@
    }
}

fn render_tenths(bytes: u64, divisor: u64, unit: &str) -> (r: String)
    requires
        divisor >= 1024,
        divisor <= 0x10000000000,
    ensures
        r@ == tenths_digits(tenths(bytes as nat, divisor as nat)) + unit@,
{
    let t128: u128 = ((bytes as u128) * 10 + (divisor as u128) / 2) / (divisor as u128);
    proof {
        assert(t128 as int == ((bytes as int) * 10 + (divisor as int) / 2) / (divisor as int));
        assert(tenths(bytes as nat, divisor as nat) == t128 as nat);
        assert((t128 as int) * 1024 <= (bytes as int) * 10 + (divisor as int))
            by (nonlinear_arith)
            requires
                divisor >= 1024,
                t128 as int == ((bytes as int) * 10 + (divisor as int) / 2) / (divisor as int),
        ;
        assert(t128 as int <= 0x400000000000000);
    }
    let whole: u64 = (t128 / 10) as u64;
    let frac: u64 = (t128 % 10) as u64;
    let mut out = fmt_u64(whole);
    out.append(".");
    let fd = fmt_u64(frac);
    out.append(fd.as_str());
    out.append(unit);
    proof {
        assert(whole as nat == tenths(bytes as nat, divisor as nat) / 10);
        assert(frac as nat == tenths(bytes as nat, divisor as nat) % 10);
        assert(out@ =~= tenths_digits(tenths(bytes as nat, divisor as nat)) + unit@);
    }
    out
}

/// Renders a byte count, exactly as [`format_bytes_spec`] says.
pub fn format_bytes(bytes: u64) -> (r: String)
    ensures
        r@ == format_bytes_spec(bytes),
{
    if bytes < 0x400 {
        let mut out = fmt_u64(bytes);
        out.append(" B");
        proof {
            assert(out@ =~= dec_digits(bytes as nat) + " B"@);
        }
        out
    } else if bytes < 0x100000 {
        render_tenths(bytes, 0x400, " KiB")
    } else if bytes < 0x40000000 {
        render_tenths(bytes, 0x100000, " MiB")
    } else if bytes < 0x10000000000 {
        render_tenths(bytes, 0x40000000, " GiB")
    } else {
        render_tenths(bytes, 0x10000000000, " TiB")
    }
}

/// A path shown with the home directory folded to `~`; a path outside the
/// home directory is shown as it is.
pub open spec fn mask_home_spec(path: Seq<char>, home: Seq<char>) -> Seq<char> {
    let b = strip_trailing_slashes(home);
    if path == b {
        "~"@
    } else if has_prefix(path, b + "/"@) {
        "~/"@ + path.subrange(b.len() as int + 1, path.len() as int)
    } else {
        path
    }
}

pub fn mask_home(path: &str, home_dir: &str, mask: bool) -> (r: String)
    ensures
        mask ==> r@ == mask_home_spec(path@, home_dir@),
        !mask ==> r@ == path@,
{
    if !mask {
        return path.to_owned();
    }
    let b = crate::trash::strip_trailing_exec(home_dir);
    if str_eq(path, b.as_str()) {
        return String::from_str("~");
    }
    let sep = b.clone().concat("/");
    if starts_with(path, sep.as_str()) {
        let n = path.unicode_len();
        let cut = sep.as_str().unicode_len();
        let rest = path.substring_char(cut, n);
        let mut out = String::from_str("~/");
        out.append(rest);
        proof {
            reveal_strlit("/");
            assert(sep@.len() == strip_trailing_slashes(home_dir@).len() + 1);
            assert(out@ =~= "~/"@ + path@.subrange(
                strip_trailing_slashes(home_dir@).len() as int + 1,
                path@.len() as int,
            ));
        }
        out
    } else {
        path.to_owned()
    }
}

/// The transaction logs live under the configuration directory.
pub fn logs_dir(home_dir: &str) -> (r: String)
    ensures
        r@ == path_join(home_dir@, ".config/macdiet/logs"@),
{
    crate::trash::path_join_exec(home_dir, ".config/macdiet/logs")
}

} // verus!
