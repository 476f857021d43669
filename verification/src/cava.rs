//! The configuration text handed to the `cava` process: raw 16-bit output
//! on stdout, with the bar count, framerate and smoothing of the config.
use crate::paths::extend_chars;
use crate::text::{chars_of, decimal, push_decimal, string_from_chars};
use vstd::prelude::*;

verus! {

/// `key = <n>` and a newline, when the option is set.
pub open spec fn num_line(key: Seq<char>, v: Option<u32>) -> Seq<char> {
    match v {
        Some(n) => key + " = "@ + decimal(n as nat) + "\n"@,
        None => Seq::empty(),
    }
}

/// The `[general]` section.
pub open spec fn general_section(framerate: u32, autosens: Option<bool>, sensitivity: Option<u32>) -> Seq<char> {
    "[general]\n"@ + "framerate = "@ + decimal(framerate as nat) + "\n"@ + match autosens {
        Some(a) => "autosens = "@ + (if a {
            "1"@
        } else {
            "0"@
        }) + "\n"@,
        None => Seq::empty(),
    } + num_line("sensitivity"@, sensitivity)
}

/// The `[output]` section: `bars` bars, raw 16-bit samples on stdout.
pub open spec fn output_section(bars: u32) -> Seq<char> {
    "\n[output]\n"@ + "bars = "@ + decimal(bars as nat) + "\n"@ + "method = raw\n"@ + "raw_target = /dev/stdout\n"@
        + "bit_format = 16bit\n"@
}

/// The `[smoothing]` section; `noise_reduction` is the value's text with two decimals.
pub open spec fn smoothing_section(monstercat: Option<u32>, waves: Option<u32>, noise_reduction: Option<Seq<char>>) -> Seq<char> {
    "\n[smoothing]\n"@ + num_line("monstercat"@, monstercat) + num_line("waves"@, waves) + match noise_reduction {
        Some(t) => "noise_reduction = "@ + t + "\n"@,
        None => Seq::empty(),
    }
}

fn push_text(v: &mut Vec<char>, s: &str)
    ensures
        final(v)@ == old(v)@ + s@,
{
    let c = chars_of(s);
    extend_chars(v, c.as_slice());
}

fn push_num_line(v: &mut Vec<char>, key: &str, value: Option<u32>)
    ensures
        final(v)@ == old(v)@ + num_line(key@, value),
{
    match value {
        Some(n) => {
            let ghost start = v@;
            push_text(v, key);
            push_text(v, " = ");
            push_decimal(n, v);
            push_text(v, "\n");
            assert(v@ =~= start + num_line(key@, value));
        },
        None => {
            assert(v@ =~= v@ + num_line(key@, value));
        },
    }
}

fn push_general(v: &mut Vec<char>, framerate: u32, autosens: Option<bool>, sensitivity: Option<u32>)
    ensures
        final(v)@ == old(v)@ + general_section(framerate, autosens, sensitivity),
{
    let ghost start = v@;
    push_text(v, "[general]\n");
    push_text(v, "framerate = ");
    push_decimal(framerate, v);
    push_text(v, "\n");
    let ghost g0 = v@;
    match autosens {
        Some(a) => {
            push_text(v, "autosens = ");
            if a {
                push_text(v, "1");
            } else {
                push_text(v, "0");
            }
            push_text(v, "\n");
        },
        None => {},
    }
    let ghost g1 = v@;
    assert(g1 =~= g0 + match autosens {
        Some(a) => "autosens = "@ + (if a {
            "1"@
        } else {
            "0"@
        }) + "\n"@,
        None => Seq::<char>::empty(),
    });
    push_num_line(v, "sensitivity", sensitivity);
    assert(v@ =~= start + general_section(framerate, autosens, sensitivity));
}

fn push_output(v: &mut Vec<char>, bars: u32)
    ensures
        final(v)@ == old(v)@ + output_section(bars),
{
    let ghost start = v@;
    push_text(v, "\n[output]\n");
    push_text(v, "bars = ");
    push_decimal(bars, v);
    push_text(v, "\n");
    push_text(v, "method = raw\n");
    push_text(v, "raw_target = /dev/stdout\n");
    push_text(v, "bit_format = 16bit\n");
    assert(v@ =~= start + output_section(bars));
}

fn push_smoothing(v: &mut Vec<char>, monstercat: Option<u32>, waves: Option<u32>, noise_reduction: Option<&str>)
    ensures
        final(v)@ == old(v)@ + smoothing_section(monstercat, waves, crate::text::opt_view(noise_reduction)),
{
    let ghost start = v@;
    push_text(v, "\n[smoothing]\n");
    push_num_line(v, "monstercat", monstercat);
    push_num_line(v, "waves", waves);
    let ghost s0 = v@;
    match noise_reduction {
        Some(t) => {
            push_text(v, "noise_reduction = ");
            push_text(v, t);
            push_text(v, "\n");
        },
        None => {},
    }
    assert(v@ =~= s0 + match crate::text::opt_view(noise_reduction) {
        Some(t) => "noise_reduction = "@ + t + "\n"@,
        None => Seq::<char>::empty(),
    });
    assert(v@ =~= start + smoothing_section(monstercat, waves, crate::text::opt_view(noise_reduction)));
}

/// The cava configuration text (`to_cava_raw_config`): the three sections in
/// order. `noise_reduction` is the smoothing value already written with two
/// decimals.
pub fn cava_raw_config(
    framerate: u32,
    autosens: Option<bool>,
    sensitivity: Option<u32>,
    bars: u32,
    monstercat: Option<u32>,
    waves: Option<u32>,
    noise_reduction: Option<&str>,
) -> (r: String)
    ensures
        r@ == general_section(framerate, autosens, sensitivity) + output_section(bars) + smoothing_section(
            monstercat,
            waves,
            crate::text::opt_view(noise_reduction),
        ),
{
    let mut v: Vec<char> = Vec::new();
    push_general(&mut v, framerate, autosens, sensitivity);
    push_output(&mut v, bars);
    push_smoothing(&mut v, monstercat, waves, noise_reduction);
    assert(v@ =~= general_section(framerate, autosens, sensitivity) + output_section(bars) + smoothing_section(
        monstercat,
        waves,
        crate::text::opt_view(noise_reduction),
    ));
    string_from_chars(v.as_slice())
}

} // verus!
