//! Emulators: argument templates and the built-in presets.
use vstd::prelude::*;
use crate::models::EmulatorConfig;
use crate::text::{
    ascii_lower, ascii_upper, ascii_upper_seq, contains, ends_with, occurs_at,
    ascii_lower_seq, ascii_lowercase, chars_to_string, owned, replace, replace_all, same_chars,
    str_chars, strings_view,
};

verus! {

/// An emulator that can start a ROM.
pub trait EmulatorAdapter {
    fn config(&self) -> &EmulatorConfig;

    fn supports(&self, platform: &str, rom: &str) -> bool;

    fn build_command(&self, rom: &str) -> Result<(String, Vec<String>), String>;
}

/// The words that `shlex::split` makes of a template: POSIX shell quoting
/// rules, `None` for unbalanced quotes or a trailing backslash.
pub uninterp spec fn shell_words(s: Seq<char>) -> Option<Seq<Seq<char>>>;

/// Calls `shlex::split`; the result is named `shell_words` of `s`.
#[verifier::external_body]
pub(crate) fn shlex_split(s: &str) -> (r: Option<Vec<String>>)
    ensures
        match r {
            Some(v) => shell_words(s@) == Some(strings_view(v@)),
            None => shell_words(s@) is None,
        },
{
    shlex::split(s)
}

/// One argument with `{rom}` and then `{core}` filled in.
pub open spec fn fill(word: Seq<char>, rom: Seq<char>, core: Seq<char>) -> Seq<char> {
    replace(replace(word, "{rom}"@, rom), "{core}"@, core)
}

/// The filled-in arguments, empty ones dropped.
pub open spec fn spec_render(words: Seq<Seq<char>>, rom: Seq<char>, core: Seq<char>) -> Seq<
    Seq<char>,
>
    decreases words.len(),
{
    if words.len() == 0 {
        Seq::empty()
    } else {
        let r = spec_render(words.drop_last(), rom, core);
        let a = fill(words.last(), rom, core);
        if a.len() == 0 {
            r
        } else {
            r.push(a)
        }
    }
}

pub open spec fn core_text(core: Option<&str>) -> Seq<char> {
    match core {
        Some(c) => c@,
        None => Seq::empty(),
    }
}

/// Fills `{rom}` and `{core}` into already split words and drops the
/// arguments that end up empty.
pub fn render_words(words: &Vec<String>, rom: &str, core: Option<&str>) -> (r: Vec<String>)
    ensures
        strings_view(r@) == spec_render(strings_view(words@), rom@, core_text(core)),
{
    let rom_chars = str_chars(rom);
    let core_chars = match core {
        Some(c) => str_chars(c),
        None => Vec::new(),
    };
    let rom_pat = str_chars("{rom}");
    let core_pat = str_chars("{core}");
    proof {
        reveal_strlit("{rom}");
        reveal_strlit("{core}");
    }
    let mut out: Vec<String> = Vec::new();
    let mut i: usize = 0;
    while i < words.len()
        invariant
            i <= words.len(),
            rom_chars@ == rom@,
            core_chars@ == core_text(core),
            rom_pat@ == "{rom}"@,
            core_pat@ == "{core}"@,
            rom_pat@.len() > 0,
            core_pat@.len() > 0,
            strings_view(out@) == spec_render(
                strings_view(words@).take(i as int),
                rom@,
                core_text(core),
            ),
        decreases words.len() - i,
    {
        proof {
            let w = strings_view(words@);
            assert(w.take(i + 1).drop_last() =~= w.take(i as int));
            assert(w.take(i + 1).last() == words@[i as int]@);
        }
        let w = str_chars(words[i].as_str());
        let a = replace_all(w.as_slice(), rom_pat.as_slice(), rom_chars.as_slice());
        let b = replace_all(a.as_slice(), core_pat.as_slice(), core_chars.as_slice());
        if b.len() > 0 {
            let ghost before = out@;
            out.push(chars_to_string(b.as_slice()));
            proof {
                assert(strings_view(out@) =~= strings_view(before).push(b@));
            }
        }
        i += 1;
    }
    assert(strings_view(words@).take(words.len() as int) =~= strings_view(words@));
    out
}

/// Builds the argument list of an emulator from its template: the template
/// is split as a shell would split it, then `{rom}` and `{core}` (empty when
/// there is no core) are filled in and empty arguments dropped.  A template
/// that does not split is an error.
pub fn render_arguments(template: &str, rom: &str, core: Option<&str>) -> (r: Result<
    Vec<String>,
    String,
>)
    ensures
        match shell_words(template@) {
            Some(w) => r matches Ok(v) && strings_view(v@) == spec_render(w, rom@, core_text(core)),
            None => r matches Err(e) && e@ == "Template de argumentos inválido"@,
        },
{
    match shlex_split(template) {
        Some(words) => Ok(render_words(&words, rom, core)),
        None => Err(owned("Template de argumentos inválido")),
    }
}

/// A preset: platform, argument template and ROM extensions.
pub open spec fn spec_preset(lower_name: Seq<char>) -> Option<(Seq<char>, Seq<char>, Seq<char>)> {
    if lower_name == "retroarch"@ {
        Some(("Multi"@, "-L {core} {rom}"@, "nes,snes,n64,z64,v64,gba,gbc,nds"@))
    } else if lower_name == "dolphin"@ {
        Some(("GameCube/Wii"@, "-b -e {rom}"@, "iso,rvz,wbfs"@))
    } else if lower_name == "pcsx2"@ {
        Some(("PlayStation 2"@, "{rom}"@, "iso,chd"@))
    } else if lower_name == "rpcs3"@ {
        Some(("PlayStation 3"@, "{rom}"@, ""@))
    } else if lower_name == "ppsspp"@ {
        Some(("PSP"@, "{rom}"@, "iso,cso,pbp"@))
    } else if lower_name == "duckstation"@ {
        Some(("PlayStation"@, "{rom}"@, "cue,chd,pbp"@))
    } else if lower_name == "cemu"@ {
        Some(("Wii U"@, "-g {rom}"@, "wua,wud,wux,rpx"@))
    } else if lower_name == "ryujinx"@ {
        Some(("Nintendo Switch"@, "{rom}"@, "nsp,xci"@))
    } else if lower_name == "melonds"@ {
        Some(("Nintendo DS"@, "{rom}"@, "nds"@))
    } else if lower_name == "mgba"@ {
        Some(("Game Boy Advance"@, "{rom}"@, "gba,gbc,gb"@))
    } else {
        None
    }
}

fn is_word(v: &[char], w: &str) -> (r: bool)
    ensures
        r == (v@ == w@),
{
    same_chars(v, str_chars(w).as_slice())
}

/// The preset of a known emulator, by name in any ASCII case: its platform,
/// its argument template and the ROM extensions it opens.
pub fn preset(name: &str) -> (r: Option<(&'static str, &'static str, &'static str)>)
    ensures
        match r {
            Some(p) => spec_preset(ascii_lower_seq(name@)) == Some((p.0@, p.1@, p.2@)),
            None => spec_preset(ascii_lower_seq(name@)) is None,
        },
{
    let lower = ascii_lowercase(str_chars(name).as_slice());
    let l = lower.as_slice();
    if is_word(l, "retroarch") {
        Some(("Multi", "-L {core} {rom}", "nes,snes,n64,z64,v64,gba,gbc,nds"))
    } else if is_word(l, "dolphin") {
        Some(("GameCube/Wii", "-b -e {rom}", "iso,rvz,wbfs"))
    } else if is_word(l, "pcsx2") {
        Some(("PlayStation 2", "{rom}", "iso,chd"))
    } else if is_word(l, "rpcs3") {
        Some(("PlayStation 3", "{rom}", ""))
    } else if is_word(l, "ppsspp") {
        Some(("PSP", "{rom}", "iso,cso,pbp"))
    } else if is_word(l, "duckstation") {
        Some(("PlayStation", "{rom}", "cue,chd,pbp"))
    } else if is_word(l, "cemu") {
        Some(("Wii U", "-g {rom}", "wua,wud,wux,rpx"))
    } else if is_word(l, "ryujinx") {
        Some(("Nintendo Switch", "{rom}", "nsp,xci"))
    } else if is_word(l, "melonds") {
        Some(("Nintendo DS", "{rom}", "nds"))
    } else if is_word(l, "mgba") {
        Some(("Game Boy Advance", "{rom}", "gba,gbc,gb"))
    } else {
        None
    }
}

/// The emulators that have presets, by lower-case name.
pub open spec fn is_preset_name(n: Seq<char>) -> bool {
    n == "retroarch"@ || n == "dolphin"@ || n == "pcsx2"@ || n == "rpcs3"@ || n == "ppsspp"@ || n
        == "duckstation"@ || n == "cemu"@ || n == "ryujinx"@ || n == "melonds"@ || n == "mgba"@
}

proof fn lemma_lower_of_upper(n: Seq<char>)
    ensures
        ascii_lower_seq(ascii_upper_seq(n)) == ascii_lower_seq(n),
{
    assert forall|i: int| 0 <= i < n.len() implies #[trigger] ascii_lower(ascii_upper(n[i])) == ascii_lower(
        n[i],
    ) by {
        let c = n[i];
        if 'a' <= c <= 'z' {
            assert(((((c as u32) - 32) as char) as u32) == (c as u32) - 32);
            assert((((((c as u32) - 32) as char) as u32 + 32) as char) == c);
        }
    }
    assert(ascii_lower_seq(ascii_upper_seq(n)) =~= ascii_lower_seq(n));
}

proof fn lemma_ends_with_rom(t: Seq<char>)
    requires
        ends_with(t, "{rom}"@),
    ensures
        contains(t, "{rom}"@),
{
    reveal_strlit("{rom}");
    assert(t.skip(t.len() - 5) =~= t.subrange(t.len() - 5, t.len() as int));
    assert(occurs_at(t, "{rom}"@, t.len() - 5));
}

/// Every emulator with a preset (RetroArch, Dolphin, PCSX2, RPCS3, PPSSPP,
/// DuckStation, Cemu, Ryujinx, melonDS, mGBA) gets one, whatever the ASCII
/// case of its name: a named platform and an argument template that ends
/// with the ROM; no other name has a preset.
pub proof fn law_presets(name: Seq<char>)
    ensures
        spec_preset(ascii_lower_seq(name)) is Some <==> is_preset_name(ascii_lower_seq(name)),
        spec_preset(ascii_lower_seq(name)) matches Some(p) ==> p.0.len() > 0 && ends_with(p.1, "{rom}"@)
            && contains(p.1, "{rom}"@),
        spec_preset(ascii_lower_seq(ascii_upper_seq(name))) == spec_preset(ascii_lower_seq(name)),
{
    lemma_lower_of_upper(name);
    reveal_strlit("{rom}");
    reveal_strlit("Multi");
    reveal_strlit("-L {core} {rom}");
    reveal_strlit("GameCube/Wii");
    reveal_strlit("-b -e {rom}");
    reveal_strlit("PlayStation 2");
    reveal_strlit("PlayStation 3");
    reveal_strlit("PSP");
    reveal_strlit("PlayStation");
    reveal_strlit("Wii U");
    reveal_strlit("-g {rom}");
    reveal_strlit("Nintendo Switch");
    reveal_strlit("Nintendo DS");
    reveal_strlit("Game Boy Advance");
    let l = ascii_lower_seq(name);
    match spec_preset(l) {
        Some(p) => {
            assert(p.1 == "-L {core} {rom}"@ || p.1 == "-b -e {rom}"@ || p.1 == "{rom}"@ || p.1 == "-g {rom}"@);
            assert("-L {core} {rom}"@.skip(10) =~= "{rom}"@);
            assert("-b -e {rom}"@.skip(6) =~= "{rom}"@);
            assert("{rom}"@.skip(0) =~= "{rom}"@);
            assert("-g {rom}"@.skip(3) =~= "{rom}"@);
            lemma_ends_with_rom(p.1);
        },
        None => {},
    }
}

/// The preset of each known emulator, by its lower-case name: platform,
/// argument template and the ROM extensions it opens.
pub proof fn law_preset_table(name: Seq<char>)
    ensures
        ({
            let l = ascii_lower_seq(name);
            let p = spec_preset(l);
            &&& l == "retroarch"@ ==> p == Some(("Multi"@, "-L {core} {rom}"@, "nes,snes,n64,z64,v64,gba,gbc,nds"@))
            &&& l == "dolphin"@ ==> p == Some(("GameCube/Wii"@, "-b -e {rom}"@, "iso,rvz,wbfs"@))
            &&& l == "pcsx2"@ ==> p == Some(("PlayStation 2"@, "{rom}"@, "iso,chd"@))
            &&& l == "rpcs3"@ ==> p == Some(("PlayStation 3"@, "{rom}"@, ""@))
            &&& l == "ppsspp"@ ==> p == Some(("PSP"@, "{rom}"@, "iso,cso,pbp"@))
            &&& l == "duckstation"@ ==> p == Some(("PlayStation"@, "{rom}"@, "cue,chd,pbp"@))
            &&& l == "cemu"@ ==> p == Some(("Wii U"@, "-g {rom}"@, "wua,wud,wux,rpx"@))
            &&& l == "ryujinx"@ ==> p == Some(("Nintendo Switch"@, "{rom}"@, "nsp,xci"@))
            &&& l == "melonds"@ ==> p == Some(("Nintendo DS"@, "{rom}"@, "nds"@))
            &&& l == "mgba"@ ==> p == Some(("Game Boy Advance"@, "{rom}"@, "gba,gbc,gb"@))
        }),
{
    reveal_strlit("retroarch");
    reveal_strlit("dolphin");
    reveal_strlit("pcsx2");
    reveal_strlit("rpcs3");
    reveal_strlit("ppsspp");
    reveal_strlit("duckstation");
    reveal_strlit("cemu");
    reveal_strlit("ryujinx");
    reveal_strlit("melonds");
    reveal_strlit("mgba");
    let l = ascii_lower_seq(name);
    if l == "retroarch"@ {
    }
    if l == "dolphin"@ {
        assert("dolphin"@.len() != "retroarch"@.len());
    }
    if l == "pcsx2"@ {
        assert("pcsx2"@.len() != "retroarch"@.len());
        assert("pcsx2"@.len() != "dolphin"@.len());
    }
    if l == "rpcs3"@ {
        assert("rpcs3"@.len() != "retroarch"@.len());
        assert("rpcs3"@.len() != "dolphin"@.len());
        assert("rpcs3"@[0] != "pcsx2"@[0]);
    }
    if l == "ppsspp"@ {
        assert("ppsspp"@.len() != "retroarch"@.len());
        assert("ppsspp"@.len() != "dolphin"@.len());
        assert("ppsspp"@.len() != "pcsx2"@.len());
        assert("ppsspp"@.len() != "rpcs3"@.len());
    }
    if l == "duckstation"@ {
        assert("duckstation"@.len() != "retroarch"@.len());
        assert("duckstation"@.len() != "dolphin"@.len());
        assert("duckstation"@.len() != "pcsx2"@.len());
        assert("duckstation"@.len() != "rpcs3"@.len());
        assert("duckstation"@.len() != "ppsspp"@.len());
    }
    if l == "cemu"@ {
        assert("cemu"@.len() != "retroarch"@.len());
        assert("cemu"@.len() != "dolphin"@.len());
        assert("cemu"@.len() != "pcsx2"@.len());
        assert("cemu"@.len() != "rpcs3"@.len());
        assert("cemu"@.len() != "ppsspp"@.len());
        assert("cemu"@.len() != "duckstation"@.len());
    }
    if l == "ryujinx"@ {
        assert("ryujinx"@.len() != "retroarch"@.len());
        assert("ryujinx"@[0] != "dolphin"@[0]);
        assert("ryujinx"@.len() != "pcsx2"@.len());
        assert("ryujinx"@.len() != "rpcs3"@.len());
        assert("ryujinx"@.len() != "ppsspp"@.len());
        assert("ryujinx"@.len() != "duckstation"@.len());
        assert("ryujinx"@.len() != "cemu"@.len());
    }
    if l == "melonds"@ {
        assert("melonds"@.len() != "retroarch"@.len());
        assert("melonds"@[0] != "dolphin"@[0]);
        assert("melonds"@.len() != "pcsx2"@.len());
        assert("melonds"@.len() != "rpcs3"@.len());
        assert("melonds"@.len() != "ppsspp"@.len());
        assert("melonds"@.len() != "duckstation"@.len());
        assert("melonds"@.len() != "cemu"@.len());
        assert("melonds"@[0] != "ryujinx"@[0]);
    }
    if l == "mgba"@ {
        assert("mgba"@.len() != "retroarch"@.len());
        assert("mgba"@.len() != "dolphin"@.len());
        assert("mgba"@.len() != "pcsx2"@.len());
        assert("mgba"@.len() != "rpcs3"@.len());
        assert("mgba"@.len() != "ppsspp"@.len());
        assert("mgba"@.len() != "duckstation"@.len());
        assert("mgba"@[0] != "cemu"@[0]);
        assert("mgba"@.len() != "ryujinx"@.len());
        assert("mgba"@.len() != "melonds"@.len());
    }
}

} // verus!
