use vstd::prelude::*;

verus! {

/// Frequencies are counted in nanohertz.
pub const NANOHERTZ_PER_HZ: u64 = 1_000_000_000;

/// Tuning is computed in femtohertz and rounded once to nanohertz.
pub const FEMTOHERTZ_PER_NANOHERTZ: u128 = 1_000_000;

/// The MIDI note identifier of concert A (A4).
pub const A4_PITCH: u8 = 69;

/// Semitones per octave.
pub const SEMITONES: u8 = 12;

/// Frequency in femtohertz of the twelve notes of the lowest MIDI octave (notes 0 through 11),
/// each `440 Hz * 2^((s - 69) / 12)` rounded to the nearest femtohertz. Note 9 is exactly 13.75 Hz,
/// five octaves below A4.
pub open spec fn lowest_octave_frequency(s: nat) -> nat {
    if s == 0 {
        8_175_798_915_643_707
    } else if s == 1 {
        8_661_957_218_027_253
    } else if s == 2 {
        9_177_023_997_418_986
    } else if s == 3 {
        9_722_718_241_315_028
    } else if s == 4 {
        10_300_861_153_527_185
    } else if s == 5 {
        10_913_382_232_281_371
    } else if s == 6 {
        11_562_325_709_738_575
    } else if s == 7 {
        12_249_857_374_429_665
    } else if s == 8 {
        12_978_271_799_373_286
    } else if s == 9 {
        13_750_000_000_000_000
    } else if s == 10 {
        14_567_617_547_440_310
    } else {
        15_433_853_164_253_878
    }
}

/// `2^k`.
pub open spec fn octave_factor(k: nat) -> nat
    decreases k,
{
    if k == 0 {
        1
    } else {
        2 * octave_factor((k - 1) as nat)
    }
}

/// Equal-tempered frequency in femtohertz of a MIDI note: the note's pitch class in the lowest
/// octave, doubled once per octave above it.
pub open spec fn fine_frequency(note: nat) -> nat {
    lowest_octave_frequency(note % 12) * octave_factor(note / 12)
}

/// Equal-tempered frequency of a MIDI note, rounded to the nearest nanohertz (halves round up).
pub open spec fn note_frequency(note: nat) -> nat {
    (fine_frequency(note) + 500_000) / (FEMTOHERTZ_PER_NANOHERTZ as nat)
}

fn lowest_octave_lookup(s: u8) -> (r: u128)
    requires
        s < SEMITONES,
    ensures
        r == lowest_octave_frequency(s as nat),
{
    match s {
        0 => 8_175_798_915_643_707,
        1 => 8_661_957_218_027_253,
        2 => 9_177_023_997_418_986,
        3 => 9_722_718_241_315_028,
        4 => 10_300_861_153_527_185,
        5 => 10_913_382_232_281_371,
        6 => 11_562_325_709_738_575,
        7 => 12_249_857_374_429_665,
        8 => 12_978_271_799_373_286,
        9 => 13_750_000_000_000_000,
        10 => 14_567_617_547_440_310,
        _ => 15_433_853_164_253_878,
    }
}

proof fn lemma_octave_factor_bound(k: nat)
    ensures
        1 <= octave_factor(k),
    decreases k,
{
    if k > 0 {
        lemma_octave_factor_bound((k - 1) as nat);
    }
}

proof fn lemma_octave_factor_monotone(j: nat, k: nat)
    requires
        j <= k,
    ensures
        octave_factor(j) <= octave_factor(k),
    decreases k - j,
{
    if j < k {
        lemma_octave_factor_monotone(j, (k - 1) as nat);
        lemma_octave_factor_bound((k - 1) as nat);
    }
}

/// Equal-tempered frequency, in nanohertz, of a MIDI note (A4 = note 69 = 440 Hz), rounded to
/// the nearest nanohertz.
pub fn midi_pitch_to_freq(pitch: u8) -> (r: u64)
    ensures
        r == note_frequency(pitch as nat),
{
    let octave: u8 = pitch / SEMITONES;
    let mut fine: u128 = lowest_octave_lookup(pitch % SEMITONES);
    let mut i: u8 = 0;
    proof {
        lemma_octave_factor_monotone(octave as nat, 21);
        reveal_with_fuel(octave_factor, 22);
        assert(octave_factor(21) == 0x20_0000);
    }
    while i < octave
        invariant
            octave == pitch / 12,
            i <= octave,
            fine == lowest_octave_frequency((pitch % 12) as nat) * octave_factor(i as nat),
            fine <= 15_433_853_164_253_878 * octave_factor(i as nat),
            octave_factor(octave as nat) <= 0x20_0000,
        decreases octave - i,
    {
        proof {
            lemma_octave_factor_monotone(i as nat + 1, octave as nat);
            assert(octave_factor(i as nat + 1) == 2 * octave_factor(i as nat));
            assert(fine * 2 <= 15_433_853_164_253_878 * octave_factor(i as nat + 1))
                by (nonlinear_arith)
                requires
                    fine <= 15_433_853_164_253_878 * octave_factor(i as nat),
                    octave_factor(i as nat + 1) == 2 * octave_factor(i as nat),
            ;
            assert(15_433_853_164_253_878 * octave_factor(i as nat + 1) <= 15_433_853_164_253_878
                * 0x20_0000) by (nonlinear_arith)
                requires
                    octave_factor(i as nat + 1) <= 0x20_0000,
            ;
            assert(lowest_octave_frequency((pitch % 12) as nat) * octave_factor(i as nat + 1) == 2
                * (lowest_octave_frequency((pitch % 12) as nat) * octave_factor(i as nat)))
                by (nonlinear_arith)
                requires
                    octave_factor(i as nat + 1) == 2 * octave_factor(i as nat),
            ;
        }
        fine = fine * 2;
        i = i + 1;
    }
    ((fine + 500_000) / FEMTOHERTZ_PER_NANOHERTZ) as u64
}

/// The tuned frequency is the nanohertz value nearest the femtohertz equal-tempered value:
/// it lies within half a nanohertz of it.
pub proof fn lemma_nearest_nanohertz(note: nat)
    ensures
        note_frequency(note) * 1_000_000 <= fine_frequency(note) + 500_000,
        fine_frequency(note) + 500_000 < note_frequency(note) * 1_000_000 + 1_000_000,
{
    let x = fine_frequency(note) + 500_000;
    vstd::arithmetic::div_mod::lemma_fundamental_div_mod(x as int, 1_000_000);
    vstd::arithmetic::div_mod::lemma_mod_bound(x as int, 1_000_000);
}

/// Every A (notes 9, 21, ..., 69, 81, ...) is tuned exactly: note `9 + 12 k` is
/// `13.75 Hz * 2^k`, so A4 (note 69) is 440 Hz and A5 (note 81) is 880 Hz.
pub proof fn lemma_a_notes_exact(k: nat)
    ensures
        note_frequency(9 + 12 * k) == 13_750_000_000 * octave_factor(k),
{
    assert((9 + 12 * k) % 12 == 9 && (9 + 12 * k) / 12 == k);
    let f = octave_factor(k);
    assert(13_750_000_000_000_000 * f + 500_000 == (13_750_000_000 * f) * 1_000_000 + 500_000);
    vstd::arithmetic::div_mod::lemma_fundamental_div_mod_converse(
        (13_750_000_000_000_000 * f + 500_000) as int,
        1_000_000,
        (13_750_000_000 * f) as int,
        500_000,
    );
}

/// A4, MIDI note 69, is tuned to exactly 440 Hz.
pub proof fn lemma_concert_a()
    ensures
        note_frequency(A4_PITCH as nat) == 440 * NANOHERTZ_PER_HZ,
{
    lemma_a_notes_exact(5);
    reveal_with_fuel(octave_factor, 6);
}

/// Raising a note by one octave (twelve semitones) doubles its unrounded frequency exactly, and
/// its tuned frequency to within one nanohertz of rounding.
pub proof fn lemma_octave_doubles(note: nat)
    ensures
        fine_frequency(note + 12) == 2 * fine_frequency(note),
        2 * note_frequency(note) <= note_frequency(note + 12) + 1,
        note_frequency(note + 12) <= 2 * note_frequency(note) + 1,
{
    let b = lowest_octave_frequency(note % 12);
    assert((note + 12) % 12 == note % 12);
    assert((note + 12) / 12 == note / 12 + 1);
    assert(octave_factor(note / 12 + 1) == 2 * octave_factor(note / 12));
    assert(b * (2 * octave_factor(note / 12)) == 2 * (b * octave_factor(note / 12)))
        by (nonlinear_arith);
    lemma_nearest_nanohertz(note);
    lemma_nearest_nanohertz(note + 12);
}

/// Raising a note by one semitone multiplies its unrounded frequency by the equal-tempered
/// ratio 2^(1/12) = 1.059463094359..., to within one part in a trillion.
pub proof fn lemma_semitone_ratio(note: nat)
    ensures
        fine_frequency(note) * 1_059_463_094_359 < fine_frequency(note + 1) * 1_000_000_000_000,
        fine_frequency(note + 1) * 1_000_000_000_000 < fine_frequency(note) * 1_059_463_094_360,
{
    let s = note % 12;
    let k = note / 12;
    let f = octave_factor(k);
    lemma_octave_factor_bound(k);
    let lo = lowest_octave_frequency(s);
    let (hi, g) = if s < 11 {
        assert((note + 1) % 12 == s + 1 && (note + 1) / 12 == k);
        (lowest_octave_frequency(s + 1), f)
    } else {
        assert((note + 1) % 12 == 0 && (note + 1) / 12 == k + 1);
        (lowest_octave_frequency(0), 2 * f)
    };
    assert(fine_frequency(note + 1) == hi * g);
    let a = if s < 11 { hi } else { hi * 2 };
    // the bounds hold for each neighbouring pair in the table, and scale by the octave factor
    assert(lo * 1_059_463_094_359 < a * 1_000_000_000_000 && a * 1_000_000_000_000 < lo
        * 1_059_463_094_360);
    assert(hi * g == a * f) by (nonlinear_arith)
        requires
            (s < 11 && a == hi && g == f) || (s >= 11 && a == hi * 2 && g == 2 * f),
    ;
    assert(lo * f * 1_059_463_094_359 < a * f * 1_000_000_000_000 && a * f * 1_000_000_000_000
        < lo * f * 1_059_463_094_360) by (nonlinear_arith)
        requires
            lo * 1_059_463_094_359 < a * 1_000_000_000_000,
            a * 1_000_000_000_000 < lo * 1_059_463_094_360,
            f >= 1,
    ;
}

} // verus!
