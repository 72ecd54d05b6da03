//! The recipe sequencer.
//!
//! Sending a recipe is a multi-step handshake: the controller expects a
//! fixed sequence of nineteen-byte buffers, some always present and some
//! depending on the recipe's steps and delay.  The order must be exactly
//! as written here, because the controller consumes the buffers as a
//! sequential state machine.

use crate::command::{command_wire, finish_command, lemma_command_fits, pad_wire, Command};
use crate::numerals::{centi_2dp_bytes, dec_bytes, push_centi_2dp, push_dec};
use crate::Centi;
use vstd::prelude::*;

verus! {

/// How long the controller waits before heating the strike water.
#[derive(Debug, Clone, PartialEq, Eq, Structural)]
pub enum RecipeDelay {
    NoDelay,
    MinutesSeconds(u16, u8),
}

/// One mash step: hold `temperature` degrees celsius for `minutes`.
#[derive(Debug, Clone, Copy, PartialEq, Eq, Structural)]
pub struct MashStep {
    pub temperature: u8,
    pub minutes: u8,
}

/// A structured brew plan, expanded into controller buffers by
/// [`Recipe::to_commands`].
#[derive(Debug, Clone)]
pub struct Recipe {
    /// The boil temperature, in hundredths of a degree celsius.
    pub boil_temperature: Centi,
    /// The total duration of the boil, in minutes.
    pub boil_time: u8,
    /// The volume of water present for the mash, in hundredths of a litre.
    pub mash_volume: Centi,
    /// The volume of water added during the sparge, in hundredths of a
    /// litre.
    pub sparge_volume: Centi,
    /// Whether the controller shows a water-treatment prompt on the
    /// countdown to heating the strike water.
    pub show_water_treatment_alert: bool,
    /// Whether the on-controller sparge counter is shown during the
    /// sparge.
    pub show_sparge_counter: bool,
    /// Whether the controller prompts to heat the sparge water.
    pub show_sparge_alert: bool,
    /// The wait before heating the strike water.
    pub delay: RecipeDelay,
    pub skip_start: bool,
    /// The name shown on the controller; nineteen characters at most, and
    /// the length is the caller's responsibility.
    pub name: String,
    pub hop_stand_time: u8,
    /// Whether the boil power can be adjusted from the controller during
    /// the boil.
    pub boil_power_mode: bool,
    pub strike_temp_mode: bool,
    /// Minute offsets from the end of the boil for each boil addition.
    pub boil_steps: Vec<u8>,
    /// The temperature and duration of each mash step, in order.
    pub mash_steps: Vec<MashStep>,
}

/// The wire byte for a boolean recipe flag.
pub open spec fn flag_byte(b: bool) -> u8 {
    if b {
        49
    } else {
        48
    }
}

/// The unpadded second buffer: boil time, mash-step count, and the two
/// volumes with two fractional digits each.
pub open spec fn recipe_header_body(r: &Recipe) -> Seq<u8> {
    seq![82u8] + dec_bytes(r.boil_time as nat) + seq![44u8] + dec_bytes(r.mash_steps@.len())
        + seq![44u8] + centi_2dp_bytes(r.mash_volume as int) + seq![44u8] + centi_2dp_bytes(
        r.sparge_volume as int,
    ) + seq![44u8]
}

/// The unpadded third buffer: five boolean flags, where the fourth says
/// whether a delay is present.
pub open spec fn recipe_flags_body(r: &Recipe) -> Seq<u8> {
    seq![
        flag_byte(r.show_water_treatment_alert),
        44u8,
        flag_byte(r.show_sparge_counter),
        44u8,
        flag_byte(r.show_sparge_alert),
        44u8,
        flag_byte(r.delay matches RecipeDelay::MinutesSeconds(_, _)),
        44u8,
        flag_byte(r.skip_start),
        44u8,
    ]
}

/// The unpadded fifth buffer: hop stand time, boil-step count, and two
/// mode flags.
pub open spec fn recipe_modes_body(r: &Recipe) -> Seq<u8> {
    dec_bytes(r.hop_stand_time as nat) + seq![44u8] + dec_bytes(r.boil_steps@.len()) + seq![44u8]
        + seq![flag_byte(r.boil_power_mode), 44u8, flag_byte(r.strike_temp_mode), 44u8]
}

/// The buffer for one boil step.
pub open spec fn boil_step_wire(offset: u8) -> Seq<u8> {
    pad_wire(dec_bytes(offset as nat) + seq![44u8])
}

/// The buffer for one mash step: temperature, a colon, minutes.
pub open spec fn mash_step_wire(m: MashStep) -> Seq<u8> {
    pad_wire(dec_bytes(m.temperature as nat) + seq![58u8] + dec_bytes(m.minutes as nat) + seq![44u8])
}

/// The buffers for a recipe's boil steps, in order.
pub open spec fn boil_step_wires(s: Seq<u8>) -> Seq<Seq<u8>> {
    s.map_values(|o: u8| boil_step_wire(o))
}

/// The buffers for a recipe's mash steps, in order.
pub open spec fn mash_step_wires(s: Seq<MashStep>) -> Seq<Seq<u8>> {
    s.map_values(|m: MashStep| mash_step_wire(m))
}

/// The trailing delay buffer, present only with a delay.
pub open spec fn delay_wire(minutes: u16, seconds: u8) -> Seq<u8> {
    pad_wire(dec_bytes(minutes as nat) + seq![44u8] + dec_bytes(seconds as nat) + seq![44u8])
}

/// The full buffer sequence for a recipe, in the order the controller
/// expects: boil temperature, header, flags, name, modes, one buffer per
/// boil step, a literal `0` placeholder when strike-temperature mode is
/// set, one buffer per mash step, and the delay last when there is one.
pub open spec fn recipe_wire(r: &Recipe) -> Seq<Seq<u8>> {
    seq![
        command_wire(&Command::SetLocalBoilTemperature(r.boil_temperature)),
        pad_wire(recipe_header_body(r)),
        pad_wire(recipe_flags_body(r)),
        pad_wire(vstd::utf8::encode_utf8(r.name@)),
        pad_wire(recipe_modes_body(r)),
    ] + boil_step_wires(r.boil_steps@) + (if r.strike_temp_mode {
        seq![pad_wire(seq![48u8])]
    } else {
        Seq::<Seq<u8>>::empty()
    }) + mash_step_wires(r.mash_steps@) + (match r.delay {
        RecipeDelay::MinutesSeconds(m, s) => seq![delay_wire(m, s)],
        RecipeDelay::NoDelay => Seq::<Seq<u8>>::empty(),
    })
}

/// Whether every buffer of the recipe renders within the fixed width: the
/// header, the name and the modes buffer are the only ones whose length
/// depends on more than a field's type.
pub open spec fn recipe_fits(r: &Recipe) -> bool {
    &&& recipe_header_body(r).len() <= 19
    &&& vstd::utf8::encode_utf8(r.name@).len() <= 19
    &&& recipe_modes_body(r).len() <= 19
}

impl Recipe {
    /// Expands the recipe into the controller's buffer sequence.  Every
    /// buffer is exactly nineteen bytes.
    #[verifier::rlimit(50)]
    pub fn to_commands(&self) -> (r: Vec<Vec<u8>>)
        requires
            recipe_fits(self),
        ensures
            r.deep_view() == recipe_wire(self),
            forall|i: int| 0 <= i < r.deep_view().len() ==> #[trigger] r.deep_view()[i].len() == 19,
    {
        let mut out: Vec<Vec<u8>> = Vec::new();
        let boil_cmd = Command::SetLocalBoilTemperature(self.boil_temperature);
        proof {
            lemma_command_fits(&boil_cmd);
        }
        out.push(boil_cmd.to_vec());
        let mut header: Vec<u8> = Vec::new();
        header.push(82);
        push_dec(&mut header, self.boil_time as u64);
        header.push(44);
        push_dec(&mut header, self.mash_steps.len() as u64);
        header.push(44);
        push_centi_2dp(&mut header, self.mash_volume);
        header.push(44);
        push_centi_2dp(&mut header, self.sparge_volume);
        header.push(44);
        proof {
            assert(header@ =~= recipe_header_body(self));
        }
        out.push(finish_command(header));
        let mut flags: Vec<u8> = Vec::new();
        flags.push(if self.show_water_treatment_alert { 49 } else { 48 });
        flags.push(44);
        flags.push(if self.show_sparge_counter { 49 } else { 48 });
        flags.push(44);
        flags.push(if self.show_sparge_alert { 49 } else { 48 });
        flags.push(44);
        let has_delay = match self.delay {
            RecipeDelay::MinutesSeconds(_, _) => true,
            RecipeDelay::NoDelay => false,
        };
        flags.push(if has_delay { 49 } else { 48 });
        flags.push(44);
        flags.push(if self.skip_start { 49 } else { 48 });
        flags.push(44);
        proof {
            assert(flags@ =~= recipe_flags_body(self));
        }
        out.push(finish_command(flags));
        let mut name_buf: Vec<u8> = Vec::new();
        name_buf.extend_from_slice(self.name.as_str().as_bytes());
        proof {
            assert(name_buf@ =~= vstd::utf8::encode_utf8(self.name@));
        }
        out.push(finish_command(name_buf));
        let mut modes: Vec<u8> = Vec::new();
        push_dec(&mut modes, self.hop_stand_time as u64);
        modes.push(44);
        push_dec(&mut modes, self.boil_steps.len() as u64);
        modes.push(44);
        modes.push(if self.boil_power_mode { 49 } else { 48 });
        modes.push(44);
        modes.push(if self.strike_temp_mode { 49 } else { 48 });
        modes.push(44);
        proof {
            assert(modes@ =~= recipe_modes_body(self));
        }
        out.push(finish_command(modes));
        let ghost head = out.deep_view();
        proof {
            assert(head =~~= seq![
                command_wire(&Command::SetLocalBoilTemperature(self.boil_temperature)),
                pad_wire(recipe_header_body(self)),
                pad_wire(recipe_flags_body(self)),
                pad_wire(vstd::utf8::encode_utf8(self.name@)),
                pad_wire(recipe_modes_body(self)),
            ]);
        }
        let mut i: usize = 0;
        while i < self.boil_steps.len()
            invariant
                i <= self.boil_steps@.len(),
                out.deep_view() == head + boil_step_wires(self.boil_steps@.take(i as int)),
            decreases self.boil_steps@.len() - i,
        {
            let mut b: Vec<u8> = Vec::new();
            push_dec(&mut b, self.boil_steps[i] as u64);
            b.push(44);
            let cmd = finish_command(b);
            proof {
                assert(b@ =~= dec_bytes(self.boil_steps@[i as int] as nat) + seq![44u8]);
                assert(cmd@ == boil_step_wire(self.boil_steps@[i as int]));
            }
            proof {
                assert(out.deep_view().len() == out@.len());
                assert(out.deep_view() == head + boil_step_wires(self.boil_steps@.take(i as int)));
                assert(out@.len() == head.len() + i);
            }
            out.push(cmd);
            proof {
                let bw = boil_step_wires(self.boil_steps@.take(i + 1));
                let bw0 = boil_step_wires(self.boil_steps@.take(i as int));
                let dv = out.deep_view();
                let rhs = head + bw;
                assert(bw.len() == i + 1);
                assert(bw0.len() == i as int);
                assert(out@.len() == head.len() + i + 1);
                assert(dv.len() == out@.len());
                assert(dv.len() == rhs.len());
                assert forall|k: int| 0 <= k < dv.len() implies dv[k] =~= rhs[k] by {
                    assert(dv[k] == out@[k].deep_view());
                    if k < head.len() {
                        assert(out@[k].deep_view() == (head + bw0)[k]);
                        assert(rhs[k] == head[k]);
                    } else if k < head.len() + i {
                        assert(out@[k].deep_view() == (head + bw0)[k]);
                        assert(bw0[k - head.len()] == boil_step_wire(
                            self.boil_steps@.take(i as int)[k - head.len()],
                        ));
                        assert(bw[k - head.len()] == boil_step_wire(
                            self.boil_steps@.take(i + 1)[k - head.len()],
                        ));
                    } else {
                        assert(out@[k] == cmd);
                        assert(cmd.deep_view() =~= cmd@);
                        assert(rhs[k] == bw[i as int]);
                        assert(bw[i as int] == boil_step_wire(self.boil_steps@.take(i + 1)[i as int]));
                    }
                }
                assert(dv =~~= rhs);
            }
            i = i + 1;
        }
        proof {
            assert(self.boil_steps@.take(self.boil_steps@.len() as int) =~= self.boil_steps@);
        }
        let ghost head2 = out.deep_view();
        if self.strike_temp_mode {
            let mut b: Vec<u8> = Vec::new();
            b.push(48);
            proof {
                assert(b@ =~= seq![48u8]);
            }
            out.push(finish_command(b));
            proof {
                assert(out.deep_view() =~~= head2 + seq![pad_wire(seq![48u8])]);
            }
        }
        let ghost head3 = out.deep_view();
        let mut j: usize = 0;
        while j < self.mash_steps.len()
            invariant
                j <= self.mash_steps@.len(),
                out.deep_view() == head3 + mash_step_wires(self.mash_steps@.take(j as int)),
            decreases self.mash_steps@.len() - j,
        {
            let step = self.mash_steps[j];
            let mut b: Vec<u8> = Vec::new();
            push_dec(&mut b, step.temperature as u64);
            b.push(58);
            push_dec(&mut b, step.minutes as u64);
            b.push(44);
            let cmd = finish_command(b);
            proof {
                assert(b@ =~= dec_bytes(step.temperature as nat) + seq![58u8] + dec_bytes(
                    step.minutes as nat,
                ) + seq![44u8]);
                assert(cmd@ == mash_step_wire(self.mash_steps@[j as int]));
            }
            proof {
                assert(out.deep_view().len() == out@.len());
                assert(out.deep_view() == head3 + mash_step_wires(self.mash_steps@.take(j as int)));
                assert(out@.len() == head3.len() + j);
            }
            out.push(cmd);
            proof {
                let mw = mash_step_wires(self.mash_steps@.take(j + 1));
                let mw0 = mash_step_wires(self.mash_steps@.take(j as int));
                let dv = out.deep_view();
                let rhs = head3 + mw;
                assert(mw.len() == j + 1);
                assert(mw0.len() == j as int);
                assert(dv.len() == rhs.len());
                assert forall|k: int| 0 <= k < dv.len() implies dv[k] =~= rhs[k] by {
                    assert(dv[k] == out@[k].deep_view());
                    if k < head3.len() {
                        assert(out@[k].deep_view() == (head3 + mw0)[k]);
                        assert(rhs[k] == head3[k]);
                    } else if k < head3.len() + j {
                        assert(out@[k].deep_view() == (head3 + mw0)[k]);
                        assert(mw0[k - head3.len()] == mash_step_wire(
                            self.mash_steps@.take(j as int)[k - head3.len()],
                        ));
                        assert(mw[k - head3.len()] == mash_step_wire(
                            self.mash_steps@.take(j + 1)[k - head3.len()],
                        ));
                    } else {
                        assert(out@[k] == cmd);
                        assert(cmd.deep_view() =~= cmd@);
                        assert(rhs[k] == mw[j as int]);
                        assert(mw[j as int] == mash_step_wire(self.mash_steps@.take(j + 1)[j as int]));
                    }
                }
                assert(dv =~~= rhs);
            }
            j = j + 1;
        }
        proof {
            assert(self.mash_steps@.take(self.mash_steps@.len() as int) =~= self.mash_steps@);
        }
        let ghost head4 = out.deep_view();
        match self.delay {
            RecipeDelay::MinutesSeconds(minutes, seconds) => {
                let mut b: Vec<u8> = Vec::new();
                push_dec(&mut b, minutes as u64);
                b.push(44);
                push_dec(&mut b, seconds as u64);
                b.push(44);
                out.push(finish_command(b));
                proof {
                    assert(out.deep_view() =~~= head4 + seq![delay_wire(minutes, seconds)]);
                }
            },
            RecipeDelay::NoDelay => {},
        }
        proof {
            assert(out.deep_view() =~~= recipe_wire(self));
            lemma_recipe_wire_lens(self);
        }
        out
    }
}

impl Default for Recipe {
    /// A starting point for a recipe: an hour's boil just below boiling,
    /// typical volumes, the sparge counter and alert shown, and no steps,
    /// delay or name.
    fn default() -> (r: Self)
        ensures
            r.boil_temperature == 9950,
            r.boil_time == 60,
            r.mash_volume == 1325,
            r.sparge_volume == 1464,
            !r.show_water_treatment_alert,
            r.show_sparge_counter,
            r.show_sparge_alert,
            r.delay == RecipeDelay::NoDelay,
            !r.skip_start,
            r.name@ == Seq::<char>::empty(),
            r.hop_stand_time == 0,
            !r.boil_power_mode,
            !r.strike_temp_mode,
            r.boil_steps@ == Seq::<u8>::empty(),
            r.mash_steps@ == Seq::<MashStep>::empty(),
    {
        Recipe {
            boil_temperature: 9950,
            boil_time: 60,
            mash_volume: 1325,
            sparge_volume: 1464,
            show_water_treatment_alert: false,
            show_sparge_counter: true,
            show_sparge_alert: true,
            delay: RecipeDelay::NoDelay,
            skip_start: false,
            name: String::new(),
            hop_stand_time: 0,
            boil_power_mode: false,
            strike_temp_mode: false,
            boil_steps: Vec::new(),
            mash_steps: Vec::new(),
        }
    }
}

/// Every buffer of a fitting recipe is exactly nineteen bytes long.
pub proof fn lemma_recipe_wire_lens(r: &Recipe)
    requires
        recipe_fits(r),
    ensures
        forall|i: int| 0 <= i < recipe_wire(r).len() ==> #[trigger] recipe_wire(r)[i].len() == 19,
{
    lemma_command_fits(&Command::SetLocalBoilTemperature(r.boil_temperature));
    assert(crate::numerals::pow10(3) == 1000) by {
        assert(crate::numerals::pow10(0) == 1);
        assert(crate::numerals::pow10(1) == 10);
        assert(crate::numerals::pow10(2) == 100);
        assert(crate::numerals::pow10(3) == 1000);
    }
    assert(crate::numerals::pow10(5) == 100000) by {
        assert(crate::numerals::pow10(0) == 1);
        assert(crate::numerals::pow10(1) == 10);
        assert(crate::numerals::pow10(2) == 100);
        assert(crate::numerals::pow10(3) == 1000);
        assert(crate::numerals::pow10(4) == 10000);
        assert(crate::numerals::pow10(5) == 100000);
    }
    let w = recipe_wire(r);
    assert forall|i: int| 0 <= i < w.len() implies #[trigger] w[i].len() == 19 by {
        let nb = r.boil_steps@.len() as int;
        let nm = r.mash_steps@.len() as int;
        let strike = if r.strike_temp_mode {
            1int
        } else {
            0int
        };
        if i >= 5 && i < 5 + nb {
            let o = r.boil_steps@[i - 5];
            crate::numerals::lemma_dec_bytes_len(o as nat, 3);
            assert(w[i] == boil_step_wire(o));
        } else if i >= 5 + nb + strike && i < 5 + nb + strike + nm {
            let m = r.mash_steps@[i - 5 - nb - strike];
            crate::numerals::lemma_dec_bytes_len(m.temperature as nat, 3);
            crate::numerals::lemma_dec_bytes_len(m.minutes as nat, 3);
            assert(w[i] == mash_step_wire(m));
        } else if i == 5 + nb + strike + nm {
            match r.delay {
                RecipeDelay::MinutesSeconds(m, s) => {
                    crate::numerals::lemma_dec_bytes_len(m as nat, 5);
                    crate::numerals::lemma_dec_bytes_len(s as nat, 3);
                    assert(w[i] == delay_wire(m, s));
                },
                RecipeDelay::NoDelay => {},
            }
        }
    }
}

} // verus!
