//! Hotkey strings parsed to platform modifier flags and virtual-key
//! codes, and the bookkeeping of registered hotkeys.
//!
//! A hotkey string such as `Ctrl+Alt+F1` is split on `+`; every token but
//! the last names a modifier, the last names the key. Registering a
//! hotkey with the operating system, and pumping its message loop, are
//! the surrounding application's work: this module owns the parsing and
//! the registry.

use vstd::prelude::*;
use crate::text::lower_seq;
use crate::text::to_lower;
use crate::text::str_eq;
use crate::text::str_chars;
use crate::text::chars_to_string;
use crate::text::copy_range;
use crate::expand::find_char;
use crate::expand::find_char_vec;

verus! {

/// The platform modifier flag for the Alt key.
pub const MOD_ALT: u32 = 1;

/// The platform modifier flag for the Control key.
pub const MOD_CONTROL: u32 = 2;

/// The platform modifier flag for the Shift key.
pub const MOD_SHIFT: u32 = 4;

/// The platform modifier flag for the Windows key.
pub const MOD_WIN: u32 = 8;

/// The virtual-key code of the Escape key.
pub const VK_ESCAPE: u32 = 0x1B;

/// A hotkey as configured: modifier names, a key name, and the action it
/// triggers.
#[derive(Debug, Clone, PartialEq, Eq, Hash)]
pub struct HotkeyConfig {
    pub id: u32,
    pub modifiers: Vec<String>,
    pub key: String,
    pub action: String,
}

/// A hotkey resolved to platform values.
#[derive(Debug)]
pub struct ParsedHotkey {
    pub id: u32,
    pub modifiers: u32,
    pub vk_code: u32,
    pub action: String,
}

/// Why a hotkey string or registration was rejected.
#[derive(Debug, Clone, Copy, PartialEq, Eq, Structural)]
pub enum HotkeyError {
    UnknownModifier,
    UnknownKey,
    HotkeyNotFound,
    IdSpaceExhausted,
}

/// Whether `c` counts as surrounding whitespace of a token.
pub open spec fn is_space(c: char) -> bool {
    c == ' ' || c == '\t' || c == '\n' || c == '\r'
}

pub open spec fn trim_start(s: Seq<char>) -> Seq<char>
    decreases s.len(),
{
    if s.len() > 0 && is_space(s.first()) {
        trim_start(s.drop_first())
    } else {
        s
    }
}

pub open spec fn trim_end(s: Seq<char>) -> Seq<char>
    decreases s.len(),
{
    if s.len() > 0 && is_space(s.last()) {
        trim_end(s.drop_last())
    } else {
        s
    }
}

/// `s` without leading and trailing whitespace.
pub open spec fn trimmed(s: Seq<char>) -> Seq<char> {
    trim_end(trim_start(s))
}

/// The `+`-separated tokens of a hotkey string, each trimmed.
pub open spec fn hotkey_tokens(s: Seq<char>) -> Seq<Seq<char>>
    decreases s.len(),
{
    match find_char(s, '+', 0) {
        None => seq![trimmed(s)],
        Some(j) => if 0 <= j < s.len() {
            seq![trimmed(s.subrange(0, j))] + hotkey_tokens(s.subrange(j + 1, s.len() as int))
        } else {
            seq![trimmed(s)]
        },
    }
}

/// The modifier flag a token names, case-insensitively.
pub open spec fn modifier_flag(lt: Seq<char>) -> Option<u32> {
    if lt == "ctrl"@ || lt == "control"@ {
        Some(MOD_CONTROL)
    } else if lt == "alt"@ {
        Some(MOD_ALT)
    } else if lt == "shift"@ {
        Some(MOD_SHIFT)
    } else if lt == "win"@ || lt == "windows"@ || lt == "cmd"@ {
        Some(MOD_WIN)
    } else {
        None
    }
}

/// The combined flags of a list of modifier tokens; nothing when any
/// token names no modifier.
pub open spec fn modifier_flags(tokens: Seq<Seq<char>>) -> Option<u32>
    decreases tokens.len(),
{
    if tokens.len() == 0 {
        Some(0u32)
    } else {
        match modifier_flag(lower_seq(tokens.first())) {
            None => None,
            Some(f) => match modifier_flags(tokens.drop_first()) {
                None => None,
                Some(rest) => Some(f | rest),
            },
        }
    }
}

/// The virtual-key code a lowered key token names.
pub open spec fn key_code_of(lk: Seq<char>) -> Option<u32> {
    if lk == "f1"@ {
        Some(0x70u32)
    } else if lk == "f2"@ {
        Some(0x71u32)
    } else if lk == "f3"@ {
        Some(0x72u32)
    } else if lk == "f4"@ {
        Some(0x73u32)
    } else if lk == "f5"@ {
        Some(0x74u32)
    } else if lk == "f6"@ {
        Some(0x75u32)
    } else if lk == "f7"@ {
        Some(0x76u32)
    } else if lk == "f8"@ {
        Some(0x77u32)
    } else if lk == "f9"@ {
        Some(0x78u32)
    } else if lk == "f10"@ {
        Some(0x79u32)
    } else if lk == "f11"@ {
        Some(0x7Au32)
    } else if lk == "f12"@ {
        Some(0x7Bu32)
    } else if lk == "escape"@ || lk == "esc"@ {
        Some(VK_ESCAPE)
    } else if lk == "space"@ {
        Some(0x20u32)
    } else if lk == "enter"@ || lk == "return"@ {
        Some(0x0Du32)
    } else if lk == "tab"@ {
        Some(0x09u32)
    } else if lk == "backspace"@ {
        Some(0x08u32)
    } else if lk == "delete"@ || lk == "del"@ {
        Some(0x2Eu32)
    } else if lk == "insert"@ || lk == "ins"@ {
        Some(0x2Du32)
    } else if lk == "home"@ {
        Some(0x24u32)
    } else if lk == "end"@ {
        Some(0x23u32)
    } else if lk == "pageup"@ || lk == "pgup"@ {
        Some(0x21u32)
    } else if lk == "pagedown"@ || lk == "pgdn"@ {
        Some(0x22u32)
    } else if lk == "up"@ {
        Some(0x26u32)
    } else if lk == "down"@ {
        Some(0x28u32)
    } else if lk == "left"@ {
        Some(0x25u32)
    } else if lk == "right"@ {
        Some(0x27u32)
    } else if lk.len() == 1 && '0' <= lk[0] && lk[0] <= '9' {
        Some(lk[0] as u32)
    } else if lk.len() == 1 && 'a' <= lk[0] && lk[0] <= 'z' {
        Some(((lk[0] as u32) - 32) as u32)
    } else if lk == "oem3"@ || (lk.len() == 1 && (lk[0] == '`' || lk[0] == '~')) {
        Some(0xC0u32)
    } else if lk == "oem1"@ || (lk.len() == 1 && (lk[0] == ';' || lk[0] == ':')) {
        Some(0xBAu32)
    } else if lk == "oemplus"@ || (lk.len() == 1 && (lk[0] == '=' || lk[0] == '+')) {
        Some(0xBBu32)
    } else if lk == "oemcomma"@ || (lk.len() == 1 && (lk[0] == ',' || lk[0] == '<')) {
        Some(0xBCu32)
    } else if lk == "oemminus"@ || (lk.len() == 1 && (lk[0] == '-' || lk[0] == '_')) {
        Some(0xBDu32)
    } else if lk == "oemperiod"@ || (lk.len() == 1 && (lk[0] == '.' || lk[0] == '>')) {
        Some(0xBEu32)
    } else if lk == "oem2"@ || (lk.len() == 1 && (lk[0] == '/' || lk[0] == '?')) {
        Some(0xBFu32)
    } else {
        None
    }
}

/// The modifier flags and key code of a hotkey string: all tokens but the
/// last must name modifiers, the last must name a key.
pub open spec fn parse_hotkey(s: Seq<char>) -> Option<(u32, u32)> {
    let tokens = hotkey_tokens(s);
    let key = tokens.last();
    let mods = tokens.drop_last();
    match modifier_flags(mods) {
        None => None,
        Some(mf) => match key_code_of(lower_seq(key)) {
            None => None,
            Some(vk) => Some((mf, vk)),
        },
    }
}

proof fn lemma_hotkey_tokens_nonempty(s: Seq<char>)
    ensures
        hotkey_tokens(s).len() >= 1,
    decreases s.len(),
{
    match find_char(s, '+', 0) {
        None => {},
        Some(j) => {
            crate::expand::lemma_find_char_bounds(s, '+', 0);
            if 0 <= j < s.len() {
                lemma_hotkey_tokens_nonempty(s.subrange(j + 1, s.len() as int));
            }
        },
    }
}

fn trim_start_idx(v: &Vec<char>, from: usize, upto: usize) -> (r: usize)
    requires
        from <= upto <= v@.len(),
    ensures
        from <= r <= upto,
        trim_start(v@.subrange(from as int, upto as int)) == v@.subrange(r as int, upto as int),
    decreases upto - from,
{
    let ghost seg = v@.subrange(from as int, upto as int);
    if from >= upto {
        from
    } else {
        let c = v[from];
        if c == ' ' || c == '\t' || c == '\n' || c == '\r' {
            proof {
                assert(seg.first() == v@[from as int]);
                assert(seg.drop_first() =~= v@.subrange(from + 1, upto as int));
            }
            trim_start_idx(v, from + 1, upto)
        } else {
            proof {
                assert(seg.first() == v@[from as int]);
            }
            from
        }
    }
}

fn trim_end_idx(v: &Vec<char>, from: usize, upto: usize) -> (r: usize)
    requires
        from <= upto <= v@.len(),
    ensures
        from <= r <= upto,
        trim_end(v@.subrange(from as int, upto as int)) == v@.subrange(from as int, r as int),
    decreases upto - from,
{
    let ghost seg = v@.subrange(from as int, upto as int);
    if upto <= from {
        proof {
            assert(seg =~= v@.subrange(from as int, from as int));
        }
        upto
    } else {
        let c = v[upto - 1];
        if c == ' ' || c == '\t' || c == '\n' || c == '\r' {
            proof {
                assert(seg.last() == v@[upto - 1]);
                assert(seg.drop_last() =~= v@.subrange(from as int, upto - 1));
            }
            trim_end_idx(v, from, upto - 1)
        } else {
            proof {
                assert(seg.last() == v@[upto - 1]);
            }
            upto
        }
    }
}

/// The trimmed characters of `v` between `from` and `upto`.
fn trimmed_range(v: &Vec<char>, from: usize, upto: usize) -> (out: Vec<char>)
    requires
        from <= upto <= v@.len(),
    ensures
        out@ == trimmed(v@.subrange(from as int, upto as int)),
{
    let a = trim_start_idx(v, from, upto);
    let b = trim_end_idx(v, a, upto);
    copy_range(v, a, b)
}

/// The trimmed `+`-separated tokens of the characters from `from` on.
fn split_tokens(v: &Vec<char>, from: usize) -> (out: Vec<String>)
    requires
        from <= v@.len(),
    ensures
        out.deep_view() == hotkey_tokens(v@.subrange(from as int, v@.len() as int)),
        out@.len() >= 1,
    decreases v@.len() - from,
{
    let ghost seg = v@.subrange(from as int, v@.len() as int);
    let n = v.len();
    proof {
        crate::expand::lemma_find_char_bounds(v@, '+', from as int);
        crate::expand::lemma_find_char_sub(v@, '+', from as int, 0);
    }
    match find_char_vec(v, '+', from) {
        None => {
            let token_chars = trimmed_range(v, from, n);
            let token = chars_to_string(&token_chars);
            let mut out: Vec<String> = Vec::new();
            out.push(token);
            proof {
                assert(out.deep_view() =~~= hotkey_tokens(seg));
            }
            out
        },
        Some(j) => {
            proof {
                crate::expand::lemma_find_char_bounds(seg, '+', 0);
                assert(seg.subrange(0, j - from) =~= v@.subrange(from as int, j as int));
                assert(seg.subrange(j - from + 1, seg.len() as int) =~= v@.subrange(
                    j + 1,
                    v@.len() as int,
                ));
            }
            let token_chars = trimmed_range(v, from, j);
            let token = chars_to_string(&token_chars);
            let rest = split_tokens(v, j + 1);
            let mut out: Vec<String> = Vec::new();
            out.push(token);
            let mut rest_mut = rest;
            out.append(&mut rest_mut);
            proof {
                assert(out.deep_view() =~~= hotkey_tokens(seg));
            }
            out
        },
    }
}

/// The registry of hotkeys the application has asked for. Identifiers
/// are handed out consecutively, starting at one.
pub struct HotkeyService {
    pub registered_hotkeys: Vec<ParsedHotkey>,
    pub next_id: u32,
}

/// The first registered hotkey with identifier `id`.
pub open spec fn find_hotkey(regs: Seq<ParsedHotkey>, id: u32) -> Option<int>
    decreases regs.len(),
{
    if regs.len() == 0 {
        None
    } else if regs.first().id == id {
        Some(0)
    } else {
        match find_hotkey(regs.drop_first(), id) {
            Some(i) => Some(i + 1),
            None => None,
        }
    }
}

proof fn lemma_find_hotkey_bounds(regs: Seq<ParsedHotkey>, id: u32)
    ensures
        match find_hotkey(regs, id) {
            Some(i) => 0 <= i < regs.len() && regs[i].id == id,
            None => true,
        },
    decreases regs.len(),
{
    if regs.len() > 0 && regs.first().id != id {
        lemma_find_hotkey_bounds(regs.drop_first(), id);
    }
}

impl HotkeyService {
    pub fn new() -> (r: Result<HotkeyService, HotkeyError>)
        ensures
            r matches Ok(s) && s.registered_hotkeys@.len() == 0 && s.next_id == 1,
    {
        Ok(HotkeyService { registered_hotkeys: Vec::new(), next_id: 1 })
    }

    /// Parses a hotkey string to platform values. The identifier and
    /// action of the result are left for the caller to fill in.
    pub fn parse_hotkey_string(&self, hotkey_str: &str) -> (r: Result<ParsedHotkey, HotkeyError>)
        ensures
            r is Ok <==> parse_hotkey(hotkey_str@) is Some,
            r matches Ok(p) ==> {
                let parsed = parse_hotkey(hotkey_str@).unwrap();
                p.id == 0 && p.modifiers == parsed.0 && p.vk_code == parsed.1 && p.action@.len()
                    == 0
            },
    {
        let v = str_chars(hotkey_str);
        proof {
            assert(v@.subrange(0, v@.len() as int) =~= v@);
            lemma_hotkey_tokens_nonempty(v@);
        }
        let tokens = split_tokens(&v, 0);
        let n = tokens.len();
        let mut flags: u32 = 0;
        let mut i: usize = 0;
        let ghost mods = hotkey_tokens(v@).drop_last();
        proof {
            assert(mods =~= tokens.deep_view().drop_last());
            assert(forall|r: u32| 0u32 | r == r) by (bit_vector);
            assert(mods.subrange(0, mods.len() as int) =~= mods);
        }
        while i < n - 1
            invariant
                n == tokens@.len(),
                n >= 1,
                i <= n - 1,
                v@ == hotkey_str@,
                tokens.deep_view() == hotkey_tokens(v@),
                tokens.deep_view().drop_last() == mods,
                forall|k: int| 0 <= k < n ==> tokens.deep_view()[k] == tokens@[k]@,
                modifier_flags(mods) == (match modifier_flags(mods.subrange(i as int, mods.len() as int)) {
                    Some(rest) => Some(flags | rest),
                    None => None::<u32>,
                }),
            decreases n - 1 - i,
        {
            let ghost suffix = mods.subrange(i as int, mods.len() as int);
            proof {
                assert(suffix.first() == mods[i as int]);
                assert(mods[i as int] == tokens@[i as int]@);
                assert(suffix.drop_first() =~= mods.subrange(i + 1, mods.len() as int));
            }
            let lt = to_lower(tokens[i].as_str());
            let flag: u32;
            if str_eq(lt.as_str(), "ctrl") || str_eq(lt.as_str(), "control") {
                flag = MOD_CONTROL;
            } else if str_eq(lt.as_str(), "alt") {
                flag = MOD_ALT;
            } else if str_eq(lt.as_str(), "shift") {
                flag = MOD_SHIFT;
            } else if str_eq(lt.as_str(), "win") || str_eq(lt.as_str(), "windows") || str_eq(
                lt.as_str(),
                "cmd",
            ) {
                flag = MOD_WIN;
            } else {
                return Err(HotkeyError::UnknownModifier);
            }
            flags = flags | flag;
            i = i + 1;
            proof {
                assert(forall|x: u32, y: u32, z: u32| x | (y | z) == (x | y) | z) by (bit_vector);
            }
        }
        proof {
            assert(mods.subrange(mods.len() as int, mods.len() as int)
                =~= Seq::<Seq<char>>::empty());
            assert(flags | 0u32 == flags) by (bit_vector);
        }
        let key = &tokens[n - 1];
        proof {
            assert(hotkey_tokens(v@).last() == tokens.deep_view()[n - 1]);
        }
        let vk = self.parse_key_code(key.as_str())?;
        Ok(ParsedHotkey { id: 0, modifiers: flags, vk_code: vk, action: String::new() })
    }

    /// The virtual-key code of a key name, case-insensitively.
    pub fn parse_key_code(&self, key: &str) -> (r: Result<u32, HotkeyError>)
        ensures
            match key_code_of(lower_seq(key@)) {
                Some(c) => r == Ok::<u32, HotkeyError>(c),
                None => r == Err::<u32, HotkeyError>(HotkeyError::UnknownKey),
            },
    {
        proof {
            reveal_strlit("oem3");
            reveal_strlit("oem1");
            reveal_strlit("oemplus");
            reveal_strlit("oemcomma");
            reveal_strlit("oemminus");
            reveal_strlit("oemperiod");
            reveal_strlit("oem2");
        }
        let lk = to_lower(key);
        let s = lk.as_str();
        if str_eq(s, "f1") {
            return Ok(0x70);
        }
        if str_eq(s, "f2") {
            return Ok(0x71);
        }
        if str_eq(s, "f3") {
            return Ok(0x72);
        }
        if str_eq(s, "f4") {
            return Ok(0x73);
        }
        if str_eq(s, "f5") {
            return Ok(0x74);
        }
        if str_eq(s, "f6") {
            return Ok(0x75);
        }
        if str_eq(s, "f7") {
            return Ok(0x76);
        }
        if str_eq(s, "f8") {
            return Ok(0x77);
        }
        if str_eq(s, "f9") {
            return Ok(0x78);
        }
        if str_eq(s, "f10") {
            return Ok(0x79);
        }
        if str_eq(s, "f11") {
            return Ok(0x7A);
        }
        if str_eq(s, "f12") {
            return Ok(0x7B);
        }
        if str_eq(s, "escape") || str_eq(s, "esc") {
            return Ok(VK_ESCAPE);
        }
        if str_eq(s, "space") {
            return Ok(0x20);
        }
        if str_eq(s, "enter") || str_eq(s, "return") {
            return Ok(0x0D);
        }
        if str_eq(s, "tab") {
            return Ok(0x09);
        }
        if str_eq(s, "backspace") {
            return Ok(0x08);
        }
        if str_eq(s, "delete") || str_eq(s, "del") {
            return Ok(0x2E);
        }
        if str_eq(s, "insert") || str_eq(s, "ins") {
            return Ok(0x2D);
        }
        if str_eq(s, "home") {
            return Ok(0x24);
        }
        if str_eq(s, "end") {
            return Ok(0x23);
        }
        if str_eq(s, "pageup") || str_eq(s, "pgup") {
            return Ok(0x21);
        }
        if str_eq(s, "pagedown") || str_eq(s, "pgdn") {
            return Ok(0x22);
        }
        if str_eq(s, "up") {
            return Ok(0x26);
        }
        if str_eq(s, "down") {
            return Ok(0x28);
        }
        if str_eq(s, "left") {
            return Ok(0x25);
        }
        if str_eq(s, "right") {
            return Ok(0x27);
        }
        if s.unicode_len() == 1 {
            let c = s.get_char(0);
            if '0' <= c && c <= '9' {
                return Ok(c as u32);
            }
            if 'a' <= c && c <= 'z' {
                return Ok((c as u32) - 32);
            }
        }
        if str_eq(s, "oem3") {
            return Ok(0xC0);
        }
        if str_eq(s, "oem1") {
            return Ok(0xBA);
        }
        if str_eq(s, "oemplus") {
            return Ok(0xBB);
        }
        if str_eq(s, "oemcomma") {
            return Ok(0xBC);
        }
        if str_eq(s, "oemminus") {
            return Ok(0xBD);
        }
        if str_eq(s, "oemperiod") {
            return Ok(0xBE);
        }
        if str_eq(s, "oem2") {
            return Ok(0xBF);
        }
        if s.unicode_len() == 1 {
            let c = s.get_char(0);
            if c == '`' || c == '~' {
                return Ok(0xC0);
            }
            if c == ';' || c == ':' {
                return Ok(0xBA);
            }
            if c == '=' || c == '+' {
                return Ok(0xBB);
            }
            if c == ',' || c == '<' {
                return Ok(0xBC);
            }
            if c == '-' || c == '_' {
                return Ok(0xBD);
            }
            if c == '.' || c == '>' {
                return Ok(0xBE);
            }
            if c == '/' || c == '?' {
                return Ok(0xBF);
            }
        }
        Err(HotkeyError::UnknownKey)
    }

    /// The hotkey string for a modifier list and key: the parts joined
    /// with `+`.
    pub fn build_hotkey_string(&self, modifiers: &Vec<String>, key: &str) -> (r: String)
        ensures
            r@ == joined_hotkey(modifiers.deep_view(), key@),
    {
        proof {
            reveal_strlit("+");
            assert("+"@ =~= seq!['+']);
            assert(modifiers.deep_view().subrange(0, 0) =~= Seq::<Seq<char>>::empty());
        }
        let mut out = String::new();
        let mut i: usize = 0;
        while i < modifiers.len()
            invariant
                i <= modifiers@.len(),
                out@ == join_mods(modifiers.deep_view().subrange(0, i as int)),
                forall|k: int| 0 <= k < modifiers@.len() ==> modifiers.deep_view()[k]
                    == modifiers@[k]@,
            decreases modifiers@.len() - i,
        {
            if i > 0 {
                out.append("+");
            }
            out.append(modifiers[i].as_str());
            i = i + 1;
            proof {
                reveal_strlit("+");
                assert("+"@ =~= seq!['+']);
                let pre = modifiers.deep_view().subrange(0, i as int);
                assert(pre.drop_last() =~= modifiers.deep_view().subrange(0, i - 1));
                assert(pre.last() == modifiers.deep_view()[i - 1]);
                assert(out@ =~= join_mods(pre));
            }
        }
        proof {
            assert(modifiers.deep_view().subrange(0, modifiers@.len() as int)
                =~= modifiers.deep_view());
        }
        if modifiers.len() > 0 {
            out.append("+");
        }
        out.append(key);
        proof {
            assert(out@ =~= joined_hotkey(modifiers.deep_view(), key@));
        }
        out
    }

    /// Parses and queues a hotkey under a fresh identifier; the platform
    /// registration itself happens in the application's message loop.
    pub fn register_hotkey(&mut self, hotkey_str: &str, action: String) -> (r: Result<
        u32,
        HotkeyError,
    >)
        ensures
            r is Ok <==> (parse_hotkey(hotkey_str@) is Some && old(self).next_id < u32::MAX),
            r matches Ok(id) ==> {
                let parsed = parse_hotkey(hotkey_str@).unwrap();
                &&& id == old(self).next_id
                &&& final(self).next_id == old(self).next_id + 1
                &&& final(self).registered_hotkeys@.len() == old(self).registered_hotkeys@.len()
                    + 1
                &&& final(self).registered_hotkeys@.drop_last() == old(
                    self,
                ).registered_hotkeys@
                &&& final(self).registered_hotkeys@.last().id == id
                &&& final(self).registered_hotkeys@.last().modifiers == parsed.0
                &&& final(self).registered_hotkeys@.last().vk_code == parsed.1
                &&& final(self).registered_hotkeys@.last().action == action
            },
            r is Err ==> *final(self) == *old(self),
    {
        let parsed = self.parse_hotkey_string(hotkey_str)?;
        if self.next_id == u32::MAX {
            return Err(HotkeyError::IdSpaceExhausted);
        }
        let id = self.next_id;
        self.next_id = self.next_id + 1;
        self.registered_hotkeys.push(
            ParsedHotkey { id, modifiers: parsed.modifiers, vk_code: parsed.vk_code, action },
        );
        Ok(id)
    }

    /// Removes the hotkey with the given identifier from the registry; an
    /// unknown identifier is rejected and changes nothing.
    pub fn unregister_hotkey(&mut self, id: u32) -> (r: Result<(), HotkeyError>)
        ensures
            r is Ok <==> find_hotkey(old(self).registered_hotkeys@, id) is Some,
            r is Ok ==> final(self).registered_hotkeys@ == old(self).registered_hotkeys@.remove(
                find_hotkey(old(self).registered_hotkeys@, id).unwrap(),
            ) && final(self).next_id == old(self).next_id,
            r is Err ==> *final(self) == *old(self) && r == Err::<(), HotkeyError>(
                HotkeyError::HotkeyNotFound,
            ),
    {
        proof {
            lemma_find_hotkey_bounds(self.registered_hotkeys@, id);
            assert(self.registered_hotkeys@.subrange(0, self.registered_hotkeys@.len() as int)
                =~= self.registered_hotkeys@);
        }
        match Self::find_hotkey_index(&self.registered_hotkeys, 0, id) {
            Some(i) => {
                self.registered_hotkeys.remove(i);
                Ok(())
            },
            None => Err(HotkeyError::HotkeyNotFound),
        }
    }

    fn find_hotkey_index(regs: &Vec<ParsedHotkey>, from: usize, id: u32) -> (r: Option<usize>)
        requires
            from <= regs@.len(),
        ensures
            match r {
                Some(i) => find_hotkey(regs@.subrange(from as int, regs@.len() as int), id)
                    == Some(i - from) && from <= i < regs@.len(),
                None => find_hotkey(regs@.subrange(from as int, regs@.len() as int), id) is None,
            },
        decreases regs@.len() - from,
    {
        let ghost suffix = regs@.subrange(from as int, regs@.len() as int);
        if from >= regs.len() {
            None
        } else {
            proof {
                assert(suffix.first() == regs@[from as int]);
                assert(suffix.drop_first() =~= regs@.subrange(from + 1, regs@.len() as int));
            }
            if regs[from].id == id {
                Some(from)
            } else {
                Self::find_hotkey_index(regs, from + 1, id)
            }
        }
    }

    /// Builds and registers each configured hotkey; entries that fail to
    /// parse are skipped. The successful ones receive consecutive
    /// identifiers, in order: the registry gains exactly their entries,
    /// and the returned identifiers are theirs.
    pub fn register_multiple_hotkeys(&mut self, hotkey_configs: Vec<HotkeyConfig>) -> (r: Result<
        Vec<u32>,
        HotkeyError,
    >)
        ensures
            r matches Ok(ids) && {
                let added = final(self).registered_hotkeys@.skip(
                    old(self).registered_hotkeys@.len() as int,
                );
                &&& multi_registered(added, hotkey_configs@, old(self).next_id)
                &&& ids@.len() == added.len()
                &&& (forall|t: int| 0 <= t < ids@.len() ==> ids@[t] == added[t].id)
                &&& ids@.len() <= hotkey_configs@.len()
            },
            final(self).registered_hotkeys@.len() == old(self).registered_hotkeys@.len() + (
            match r {
                Ok(ids) => ids@.len() as int,
                Err(_) => 0int,
            }),
            final(self).registered_hotkeys@.subrange(
                0,
                old(self).registered_hotkeys@.len() as int,
            ) == old(self).registered_hotkeys@,
            final(self).next_id == old(self).next_id + (match r {
                Ok(ids) => ids@.len() as int,
                Err(_) => 0int,
            }),
    {
        let mut registered_ids: Vec<u32> = Vec::new();
        let mut i: usize = 0;
        let ghost base = self.registered_hotkeys@.len();
        while i < hotkey_configs.len()
            invariant
                base == old(self).registered_hotkeys@.len(),
                i <= hotkey_configs@.len(),
                registered_ids@.len() <= i,
                self.registered_hotkeys@.len() == base + registered_ids@.len(),
                self.registered_hotkeys@.subrange(0, base as int) == old(
                    self,
                ).registered_hotkeys@,
                self.next_id == old(self).next_id + registered_ids@.len(),
                multi_registered(
                    self.registered_hotkeys@.skip(base as int),
                    hotkey_configs@.subrange(0, i as int),
                    old(self).next_id,
                ),
                forall|t: int|
                    0 <= t < registered_ids@.len() ==> registered_ids@[t]
                        == self.registered_hotkeys@.skip(base as int)[t].id,
            decreases hotkey_configs@.len() - i,
        {
            let ghost regs_before = self.registered_hotkeys@;
            let ghost added_before = self.registered_hotkeys@.skip(base as int);
            let ghost prefix = hotkey_configs@.subrange(0, i as int);
            let config = &hotkey_configs[i];
            let hotkey_str = self.build_hotkey_string(&config.modifiers, config.key.as_str());
            proof {
                assert(prefix.push(hotkey_configs@[i as int]) =~= hotkey_configs@.subrange(
                    0,
                    i + 1,
                ));
            }
            match self.register_hotkey(hotkey_str.as_str(), config.action.clone()) {
                Ok(id) => {
                    registered_ids.push(id);
                    proof {
                        let e = self.registered_hotkeys@.last();
                        assert(self.registered_hotkeys@.drop_last() == regs_before);
                        assert(self.registered_hotkeys@.subrange(0, base as int)
                            =~= regs_before.subrange(0, base as int));
                        assert(self.registered_hotkeys@.skip(base as int) =~= added_before.push(
                            e,
                        ));
                        lemma_multi_registered_push_ok(
                            added_before,
                            prefix,
                            hotkey_configs@[i as int],
                            old(self).next_id,
                            e,
                        );
                    }
                },
                Err(_) => {
                    proof {
                        lemma_multi_registered_push_fail(
                            added_before,
                            prefix,
                            hotkey_configs@[i as int],
                            old(self).next_id,
                        );
                    }
                },
            }
            i = i + 1;
        }
        proof {
            assert(hotkey_configs@.subrange(0, hotkey_configs@.len() as int) =~= hotkey_configs@);
        }
        Ok(registered_ids)
    }

    /// A copy of every registered hotkey.
    pub fn get_registered_hotkeys(&self) -> (r: Vec<ParsedHotkey>)
        ensures
            r@ == self.registered_hotkeys@,
    {
        let mut out: Vec<ParsedHotkey> = Vec::new();
        let mut i: usize = 0;
        while i < self.registered_hotkeys.len()
            invariant
                i <= self.registered_hotkeys@.len(),
                out@ == self.registered_hotkeys@.subrange(0, i as int),
            decreases self.registered_hotkeys@.len() - i,
        {
            let h = &self.registered_hotkeys[i];
            out.push(
                ParsedHotkey {
                    id: h.id,
                    modifiers: h.modifiers,
                    vk_code: h.vk_code,
                    action: h.action.clone(),
                },
            );
            i = i + 1;
            proof {
                assert(out@ =~= self.registered_hotkeys@.subrange(0, i as int));
            }
        }
        proof {
            assert(out@ =~= self.registered_hotkeys@);
        }
        out
    }
}


/// How the registry entries appended by a bulk registration line up, in
/// order, with the configured hotkeys: each config whose built hotkey
/// string parses, while identifiers remain, contributes the next
/// consecutive identifier with its parsed values and action; the other
/// configs contribute nothing.
pub open spec fn multi_registered(
    entries: Seq<ParsedHotkey>,
    configs: Seq<HotkeyConfig>,
    next_id: u32,
) -> bool
    decreases configs.len(),
{
    if configs.len() == 0 {
        entries.len() == 0
    } else {
        let hk = joined_hotkey(configs.first().modifiers.deep_view(), configs.first().key@);
        if parse_hotkey(hk) is Some && next_id < u32::MAX {
            &&& entries.len() > 0
            &&& entries.first().id == next_id
            &&& entries.first().modifiers == parse_hotkey(hk).unwrap().0
            &&& entries.first().vk_code == parse_hotkey(hk).unwrap().1
            &&& entries.first().action == configs.first().action
            &&& multi_registered(entries.drop_first(), configs.drop_first(), (next_id + 1) as u32)
        } else {
            multi_registered(entries, configs.drop_first(), next_id)
        }
    }
}

/// Registering one more config that parses, under the next identifier,
/// extends the correspondence by its entry.
proof fn lemma_multi_registered_push_ok(
    entries: Seq<ParsedHotkey>,
    configs: Seq<HotkeyConfig>,
    c: HotkeyConfig,
    n0: u32,
    e: ParsedHotkey,
)
    requires
        multi_registered(entries, configs, n0),
        n0 + entries.len() < u32::MAX,
        parse_hotkey(joined_hotkey(c.modifiers.deep_view(), c.key@)) is Some,
        e.id == n0 + entries.len(),
        e.modifiers == parse_hotkey(joined_hotkey(c.modifiers.deep_view(), c.key@)).unwrap().0,
        e.vk_code == parse_hotkey(joined_hotkey(c.modifiers.deep_view(), c.key@)).unwrap().1,
        e.action == c.action,
    ensures
        multi_registered(entries.push(e), configs.push(c), n0),
    decreases configs.len(),
{
    reveal_with_fuel(multi_registered, 3);
    let pushed_entries = entries.push(e);
    let pushed_configs = configs.push(c);
    if configs.len() == 0 {
        assert(entries.len() == 0);
        assert(pushed_configs.first() == c);
        assert(pushed_entries.first() == e);
        assert(pushed_entries.drop_first() =~= Seq::<ParsedHotkey>::empty());
        assert(pushed_configs.drop_first() =~= Seq::<HotkeyConfig>::empty());
    } else {
        assert(pushed_configs.first() == configs.first());
        assert(pushed_configs.drop_first() =~= configs.drop_first().push(c));
        let hk = joined_hotkey(configs.first().modifiers.deep_view(), configs.first().key@);
        if parse_hotkey(hk) is Some && n0 < u32::MAX {
            assert(entries.len() > 0);
            assert(pushed_entries.first() == entries.first());
            assert(pushed_entries.drop_first() =~= entries.drop_first().push(e));
            lemma_multi_registered_push_ok(
                entries.drop_first(),
                configs.drop_first(),
                c,
                (n0 + 1) as u32,
                e,
            );
        } else {
            lemma_multi_registered_push_ok(entries, configs.drop_first(), c, n0, e);
        }
    }
}

/// Registering one more config that does not parse, or that arrives with
/// no identifiers left, leaves the correspondence as it is.
proof fn lemma_multi_registered_push_fail(
    entries: Seq<ParsedHotkey>,
    configs: Seq<HotkeyConfig>,
    c: HotkeyConfig,
    n0: u32,
)
    requires
        multi_registered(entries, configs, n0),
        !(parse_hotkey(joined_hotkey(c.modifiers.deep_view(), c.key@)) is Some && n0
            + entries.len() < u32::MAX),
    ensures
        multi_registered(entries, configs.push(c), n0),
    decreases configs.len(),
{
    reveal_with_fuel(multi_registered, 3);
    let pushed_configs = configs.push(c);
    if configs.len() == 0 {
        assert(entries.len() == 0);
        assert(pushed_configs.first() == c);
        assert(pushed_configs.drop_first() =~= Seq::<HotkeyConfig>::empty());
    } else {
        assert(pushed_configs.first() == configs.first());
        assert(pushed_configs.drop_first() =~= configs.drop_first().push(c));
        let hk = joined_hotkey(configs.first().modifiers.deep_view(), configs.first().key@);
        if parse_hotkey(hk) is Some && n0 < u32::MAX {
            lemma_multi_registered_push_fail(
                entries.drop_first(),
                configs.drop_first(),
                c,
                (n0 + 1) as u32,
            );
        } else {
            lemma_multi_registered_push_fail(entries, configs.drop_first(), c, n0);
        }
    }
}

/// The modifier names joined with `+`.
pub open spec fn join_mods(mods: Seq<Seq<char>>) -> Seq<char>
    decreases mods.len(),
{
    if mods.len() == 0 {
        Seq::<char>::empty()
    } else if mods.len() == 1 {
        mods[0]
    } else {
        join_mods(mods.drop_last()) + seq!['+'] + mods.last()
    }
}

/// A hotkey string built back from parts: the modifiers joined with `+`,
/// then the key, with `+` between when any modifier is present.
pub open spec fn joined_hotkey(mods: Seq<Seq<char>>, key: Seq<char>) -> Seq<char> {
    if mods.len() == 0 {
        key
    } else {
        join_mods(mods) + seq!['+'] + key
    }
}

} // verus!
