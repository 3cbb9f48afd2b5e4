use vstd::prelude::*;

use crate::json::{escape_chars, sp_escape};
use crate::mac::{sp_format_mac, Mac};
use crate::text::{chars_to_string, dec_val, fmt_u64, lemma_dec_roundtrip, sp_dec, str_to_chars};

verus! {

/// The three command kinds the service understands.
#[derive(Clone, Copy, Debug, PartialEq, Eq, Structural)]
pub enum CommandKind {
    Switch,
    Brightness,
    Color,
}

/// The lower-snake-case tag a command kind carries on the wire.
pub open spec fn sp_kind_tag(k: CommandKind) -> Seq<char> {
    match k {
        CommandKind::Switch => "switch"@,
        CommandKind::Brightness => "brightness"@,
        CommandKind::Color => "color"@,
    }
}

fn kind_tag(k: CommandKind) -> (r: &'static str)
    ensures
        r@ == sp_kind_tag(k),
{
    match k {
        CommandKind::Switch => "switch",
        CommandKind::Brightness => "brightness",
        CommandKind::Color => "color",
    }
}

/// The model of a command: its kind, target address and encoded value.
pub struct CommandV {
    pub kind: CommandKind,
    pub dn: Seq<u8>,
    pub value: Seq<char>,
}

/// A single state-change instruction addressed to one device.  It embeds
/// the device address by value, so it stays publishable after the
/// originating device handle is discarded.  The issue time is not a
/// field: it is stamped when the command is serialized.
pub struct Command {
    pub kind: CommandKind,
    pub dn: Mac,
    pub value: String,
}

impl View for Command {
    type V = CommandV;

    open spec fn view(&self) -> CommandV {
        CommandV { kind: self.kind, dn: self.dn@, value: self.value@ }
    }
}

/// The truncating percentage scaling of an 8-bit brightness input.
pub open spec fn sp_brightness_percent(level: u8) -> nat {
    ((level as nat) * 100) / 255
}

/// Scales an 8-bit brightness input to a 0 to 100 percentage, truncating.
pub fn brightness_percent(level: u8) -> (r: u8)
    ensures
        r as nat == sp_brightness_percent(level),
        r <= 100,
{
    let wide: u64 = (level as u64) * 100 / 255;
    proof {
        assert((level as nat) * 100 / 255 <= 100) by (nonlinear_arith)
            requires
                level <= 255,
        ;
    }
    wide as u8
}

impl Command {
    /// The switch command: value `"1"` turns the device on, `"0"` off.
    pub fn switch(dn: Mac, on: bool) -> (c: Command)
        ensures
            c@.kind == CommandKind::Switch,
            c@.dn == dn@,
            c@.value == if on {
                "1"@
            } else {
                "0"@
            },
    {
        let value: String = if on {
            "1".to_owned()
        } else {
            "0".to_owned()
        };
        Command { kind: CommandKind::Switch, dn, value }
    }

    /// The brightness command: the 8-bit input scaled to a decimal
    /// percentage string by truncating division.
    pub fn brightness(dn: Mac, level: u8) -> (c: Command)
        ensures
            c@.kind == CommandKind::Brightness,
            c@.dn == dn@,
            c@.value == sp_dec(sp_brightness_percent(level)),
    {
        let pct = brightness_percent(level);
        let digits = fmt_u64(pct as u64);
        let value = chars_to_string(&digits);
        Command { kind: CommandKind::Brightness, dn, value }
    }

    /// The color command: three 8-bit channels passed through unmodified
    /// as a decimal `R:G:B` triplet.
    pub fn color(dn: Mac, rgb: (u8, u8, u8)) -> (c: Command)
        ensures
            c@.kind == CommandKind::Color,
            c@.dn == dn@,
            c@.value == sp_dec(rgb.0 as nat) + seq![':'] + sp_dec(rgb.1 as nat) + seq![':']
                + sp_dec(rgb.2 as nat),
    {
        let mut chars = fmt_u64(rgb.0 as u64);
        chars.push(':');
        let mut g = fmt_u64(rgb.1 as u64);
        chars.append(&mut g);
        chars.push(':');
        let mut b = fmt_u64(rgb.2 as u64);
        chars.append(&mut b);
        let value = chars_to_string(&chars);
        proof {
            assert(value@ =~= sp_dec(rgb.0 as nat) + seq![':'] + sp_dec(rgb.1 as nat) + seq![':']
                + sp_dec(rgb.2 as nat));
        }
        Command { kind: CommandKind::Color, dn, value }
    }
}

/// The topic a device's commands are published to.
pub open spec fn sp_topic(mac: Seq<u8>) -> Seq<char> {
    "wifielement/"@ + sp_format_mac(mac) + "/update"@
}

/// Renders the publish topic for a device address.
pub fn topic_for(dn: &Mac) -> (r: String)
    ensures
        r@ == sp_topic(dn@),
{
    let mut out: String = "wifielement/".to_owned();
    let m = dn.format();
    out.append(m.as_str());
    out.append("/update");
    proof {
        assert(out@ =~= sp_topic(dn@));
    }
    out
}

/// A wall-clock reading: whole milliseconds since the epoch.
#[derive(Clone, Copy, Debug)]
pub struct CurrentTime {
    pub millis: u64,
}

impl CurrentTime {
    /// Relies on `std::time::SystemTime::now` and
    /// `duration_since(UNIX_EPOCH)`: yields the wall clock as whole
    /// milliseconds since the epoch.  Nothing is promised of the value;
    /// the clock belongs to the environment.  A clock reading before the
    /// epoch is an unrecoverable environment fault and aborts.
    #[verifier::external_body]
    pub fn now() -> CurrentTime {
        let millis = std::time::SystemTime::now()
            .duration_since(std::time::UNIX_EPOCH)
            .expect("wall clock reads before the epoch")
            .as_millis() as u64;
        CurrentTime { millis }
    }
}

/// Everything of a command's payload before the decimal time digits.
pub open spec fn sp_payload_prefix(c: CommandV) -> Seq<char> {
    "{\"type\":\""@ + sp_kind_tag(c.kind) + "\",\"dn\":\""@ + sp_format_mac(c.dn)
        + "\",\"value\":\""@ + sp_escape(c.value) + "\",\"time\":"@
}

/// The JSON payload of a command stamped at a given time: the kind tag,
/// the formatted address, the escaped value string, and the stamp's
/// decimal milliseconds.
pub open spec fn sp_payload(c: CommandV, millis: u64) -> Seq<char> {
    sp_payload_prefix(c) + sp_dec(millis as nat) + "}"@
}

/// Serializes a command with an explicit time stamp.
pub fn serialize_at(c: &Command, t: CurrentTime) -> (r: String)
    ensures
        r@ == sp_payload(c@, t.millis),
{
    let mut out: String = "{\"type\":\"".to_owned();
    out.append(kind_tag(c.kind));
    out.append("\",\"dn\":\"");
    let m = c.dn.format();
    out.append(m.as_str());
    out.append("\",\"value\":\"");
    let vc = str_to_chars(c.value.as_str());
    let ve = escape_chars(&vc);
    let vs = chars_to_string(&ve);
    out.append(vs.as_str());
    out.append("\",\"time\":");
    let digits = fmt_u64(t.millis);
    let ds = chars_to_string(&digits);
    out.append(ds.as_str());
    out.append("}");
    proof {
        assert(out@ =~= sp_payload(c@, t.millis));
    }
    out
}

/// Serializes a command, stamping the wall clock at serialization time:
/// two serializations of one logical command may differ only in the time
/// field.
pub fn serialize(c: &Command) -> (r: String)
    ensures
        exists|t: u64| r@ == sp_payload(c@, t),
{
    let t = CurrentTime::now();
    let r = serialize_at(c, t);
    proof {
        assert(r@ == sp_payload(c@, t.millis));
    }
    r
}

/// Commands stamped at non-decreasing clock readings serialize with
/// non-decreasing time fields: a payload's time digits denote exactly
/// its stamp, so the values the two payloads carry follow the clock.
pub proof fn lemma_payload_time_monotone(c1: CommandV, t1: u64, c2: CommandV, t2: u64)
    requires
        t1 <= t2,
    ensures
        sp_payload(c1, t1) == sp_payload_prefix(c1) + sp_dec(t1 as nat) + "}"@,
        sp_payload(c2, t2) == sp_payload_prefix(c2) + sp_dec(t2 as nat) + "}"@,
        dec_val(sp_dec(t1 as nat)) <= dec_val(sp_dec(t2 as nat)),
{
    lemma_dec_roundtrip(t1 as nat);
    lemma_dec_roundtrip(t2 as nat);
}

} // verus!
