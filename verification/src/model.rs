//! The per-cell simulation configuration and the fixed-width input files the
//! external simulator reads.
//!
//! Every physical quantity is carried as a fixed-point `i64`: daily weather
//! and irrigation series in tenths, plant parameters in ten-thousandths, and
//! soil parameters in hundredths, matching the decimal places each file
//! prints.
use vstd::prelude::*;
use vstd::string::StringExecFns;

use crate::series::Series;
use crate::series::series_seq;
use crate::text::spec_digits;
use crate::text::spec_fixed;
use crate::text::spec_padded;
use crate::text::spaces;
use crate::text::chars_to_string;
use crate::text::str_chars;
use crate::text::parse_fixed;
use crate::text::tokenize;
use crate::text::split_lines;
use crate::text::token_val;
use crate::text::spec_tokens_from;
use crate::text::spec_lines_from;
use crate::text::views_of;
use crate::text::fmt_fixed;
use crate::text::fmt_nat;
use crate::text::pad_left;

verus! {

/// Daily time-varying inputs: one entry per simulated day.
///
/// All values are tenths. The five weather series (`temp_max`, `temp_min`,
/// `rainfall`, `photosynthetic_energy_flux`, `energy_flux`) share the day
/// axis; `irrigation` carries its own day count.
#[derive(Debug)]
pub struct DailyData {
    pub irrigation: Series,
    pub temp_max: Series,
    pub temp_min: Series,
    pub rainfall: Series,
    pub photosynthetic_energy_flux: Series,
    pub energy_flux: Series,
}

/// One irrigation line: the day right-justified to five columns, two blanks,
/// and the amount with one decimal place.
pub open spec fn irrigation_line(day: nat, amount: i64) -> Seq<char> {
    spec_padded(spec_digits(day), 5) + spaces(2) + spec_fixed(amount as int, 1) + seq!['\n']
}

/// The first `upto` irrigation lines, days counted from one.
pub open spec fn irrigation_text(irr: Seq<i64>, upto: int) -> Seq<char>
    decreases upto,
{
    if upto <= 0 {
        Seq::empty()
    } else {
        irrigation_text(irr, upto - 1) + irrigation_line(upto as nat, irr[upto - 1])
    }
}

/// One weather line: the day to five columns, then solar flux, maximum and
/// minimum temperature each to four columns, rainfall to six, fourteen blank
/// columns, and photosynthetic flux to four, all with one decimal place.
pub open spec fn weather_line(day: nat, srad: i64, tmax: i64, tmin: i64, rain: i64, par: i64) -> Seq<
    char,
> {
    spec_padded(spec_digits(day), 5) + spaces(2) + spec_padded(spec_fixed(srad as int, 1), 4)
        + spaces(2) + spec_padded(spec_fixed(tmax as int, 1), 4) + spaces(2) + spec_padded(
        spec_fixed(tmin as int, 1),
        4,
    ) + spec_padded(spec_fixed(rain as int, 1), 6) + spaces(14) + spec_padded(
        spec_fixed(par as int, 1),
        4,
    ) + seq!['\n']
}

/// The first `upto` weather lines of a daily data set, days counted from one.
pub open spec fn weather_text(d: DailyData, upto: int) -> Seq<char>
    decreases upto,
{
    if upto <= 0 {
        Seq::empty()
    } else {
        weather_text(d, upto - 1) + weather_line(
            upto as nat,
            series_seq(d.energy_flux)[upto - 1],
            series_seq(d.temp_max)[upto - 1],
            series_seq(d.temp_min)[upto - 1],
            series_seq(d.rainfall)[upto - 1],
            series_seq(d.photosynthetic_energy_flux)[upto - 1],
        )
    }
}

impl DailyData {
    /// The five weather series cover the same days.
    pub open spec fn weather_wf(self) -> bool {
        &&& series_seq(self.energy_flux).len() == series_seq(self.temp_max).len()
        &&& series_seq(self.temp_min).len() == series_seq(self.temp_max).len()
        &&& series_seq(self.rainfall).len() == series_seq(self.temp_max).len()
        &&& series_seq(self.photosynthetic_energy_flux).len() == series_seq(self.temp_max).len()
    }

    /// An independent copy of every series.
    pub fn duplicate(&self) -> (r: DailyData)
        ensures
            series_seq(r.irrigation) == series_seq(self.irrigation),
            series_seq(r.temp_max) == series_seq(self.temp_max),
            series_seq(r.temp_min) == series_seq(self.temp_min),
            series_seq(r.rainfall) == series_seq(self.rainfall),
            series_seq(r.photosynthetic_energy_flux) == series_seq(
                self.photosynthetic_energy_flux,
            ),
            series_seq(r.energy_flux) == series_seq(self.energy_flux),
    {
        DailyData {
            irrigation: self.irrigation.duplicate(),
            temp_max: self.temp_max.duplicate(),
            temp_min: self.temp_min.duplicate(),
            rainfall: self.rainfall.duplicate(),
            photosynthetic_energy_flux: self.photosynthetic_energy_flux.duplicate(),
            energy_flux: self.energy_flux.duplicate(),
        }
    }

    /// The irrigation input file: one line per day.
    pub fn save_irrigation(&self) -> (r: String)
        ensures
            r@ == irrigation_text(
                series_seq(self.irrigation),
                series_seq(self.irrigation).len() as int,
            ),
    {
        let n = self.irrigation.len();
        let mut acc: Vec<char> = Vec::new();
        let mut i: usize = 0;
        while i < n
            invariant
                n == series_seq(self.irrigation).len(),
                i <= n,
                acc@ == irrigation_text(series_seq(self.irrigation), i as int),
            decreases n - i,
        {
            let ghost acc0 = acc@;
            let mut day = pad_left(fmt_nat((i + 1) as u64), 5);
            acc.append(&mut day);
            acc.push(' ');
            acc.push(' ');
            let mut amount = fmt_fixed(self.irrigation.get(i), 1);
            acc.append(&mut amount);
            acc.push('\n');
            proof {
                assert(acc@ =~= acc0 + irrigation_line(
                    (i + 1) as nat,
                    series_seq(self.irrigation)[i as int],
                ));
            }
            i = i + 1;
        }
        chars_to_string(&acc)
    }

    /// The weather input file: one line per day.
    pub fn save_weather(&self) -> (r: String)
        requires
            self.weather_wf(),
        ensures
            r@ == weather_text(*self, series_seq(self.temp_max).len() as int),
    {
        let n = self.temp_max.len();
        let mut acc: Vec<char> = Vec::new();
        let mut i: usize = 0;
        while i < n
            invariant
                self.weather_wf(),
                n == series_seq(self.temp_max).len(),
                i <= n,
                acc@ == weather_text(*self, i as int),
            decreases n - i,
        {
            let mut line = weather_line_chars(
                i + 1,
                self.energy_flux.get(i),
                self.temp_max.get(i),
                self.temp_min.get(i),
                self.rainfall.get(i),
                self.photosynthetic_energy_flux.get(i),
            );
            acc.append(&mut line);
            i = i + 1;
        }
        chars_to_string(&acc)
    }
}

/// One rendered weather line.
fn weather_line_chars(day: usize, srad: i64, tmax: i64, tmin: i64, rain: i64, par: i64) -> (r: Vec<
    char,
>)
    requires
        day >= 1,
    ensures
        r@ == weather_line(day as nat, srad, tmax, tmin, rain, par),
{
    let mut acc = pad_left(fmt_nat(day as u64), 5);
    acc.push(' ');
    acc.push(' ');
    let mut f1 = pad_left(fmt_fixed(srad, 1), 4);
    acc.append(&mut f1);
    acc.push(' ');
    acc.push(' ');
    let mut f2 = pad_left(fmt_fixed(tmax, 1), 4);
    acc.append(&mut f2);
    acc.push(' ');
    acc.push(' ');
    let mut f3 = pad_left(fmt_fixed(tmin, 1), 4);
    acc.append(&mut f3);
    let mut f4 = pad_left(fmt_fixed(rain, 1), 6);
    acc.append(&mut f4);
    let ghost acc_b = acc@;
    let mut blank: usize = 0;
    while blank < 14
        invariant
            blank <= 14,
            acc@ == acc_b + spaces(blank as nat),
        decreases 14 - blank,
    {
        acc.push(' ');
        blank = blank + 1;
        assert(acc@ =~= acc_b + spaces(blank as nat));
    }
    let mut f5 = pad_left(fmt_fixed(par, 1), 4);
    acc.append(&mut f5);
    acc.push('\n');
    proof {
        assert(acc@ =~= weather_line(day as nat, srad, tmax, tmin, rain, par));
    }
    acc
}

/// Yearly scalar parameters of one simulated cell.
///
/// Plant parameters (`plant_*`) are ten-thousandths, soil parameters
/// (`soil_*`) hundredths; the two control values are plain integers.
#[derive(Clone, Copy, Debug, PartialEq, Eq, Structural)]
pub struct YearlyData {
    pub plant_leaves_max_number: i64,
    pub plant_emp2: i64,
    pub plant_emp1: i64,
    pub plant_density: i64,
    pub plant_nb: i64,
    pub plant_leaf_max_appearance_rate: i64,
    pub plant_growth_canopy_fraction: i64,
    pub plant_min_repro_growth_temp: i64,
    pub plant_repro_phase_duration: i64,
    pub plant_leaves_number_of: i64,
    pub plant_leaf_area_index: i64,
    pub plant_matter: i64,
    pub plant_matter_root: i64,
    pub plant_matter_canopy: i64,
    pub plant_matter_leaves_removed: i64,
    pub plant_development_phase: i64,
    pub plant_leaf_specific_area: i64,
    pub soil_water_content_wilting_point: i64,
    pub soil_water_content_field_capacity: i64,
    pub soil_water_content_saturation: i64,
    pub soil_profile_depth: i64,
    pub soil_drainage_daily_percent: i64,
    pub soil_runoff_curve_number: i64,
    pub soil_water_storage: i64,
    pub day_of_planting: i32,
    pub printout_freq: i32,
}

/// The plant parameters in the order the plant file prints them.
pub open spec fn plant_fields(y: YearlyData) -> Seq<i64> {
    seq![
        y.plant_leaves_max_number,
        y.plant_emp2,
        y.plant_emp1,
        y.plant_density,
        y.plant_nb,
        y.plant_leaf_max_appearance_rate,
        y.plant_growth_canopy_fraction,
        y.plant_min_repro_growth_temp,
        y.plant_repro_phase_duration,
        y.plant_leaves_number_of,
        y.plant_leaf_area_index,
        y.plant_matter,
        y.plant_matter_root,
        y.plant_matter_canopy,
        y.plant_matter_leaves_removed,
        y.plant_development_phase,
        y.plant_leaf_specific_area,
    ]
}

/// The soil parameters in the order the soil file prints them.
pub open spec fn soil_fields(y: YearlyData) -> Seq<i64> {
    seq![
        y.soil_water_content_wilting_point,
        y.soil_water_content_field_capacity,
        y.soil_water_content_saturation,
        y.soil_profile_depth,
        y.soil_drainage_daily_percent,
        y.soil_runoff_curve_number,
        y.soil_water_storage,
    ]
}

/// The first `upto` plant fields rendered: each preceded by one blank, with
/// four decimal places, right-justified to seven columns.
pub open spec fn plant_fields_text(vals: Seq<i64>, upto: int) -> Seq<char>
    decreases upto,
{
    if upto <= 0 {
        Seq::empty()
    } else {
        plant_fields_text(vals, upto - 1) + seq![' '] + spec_padded(
            spec_fixed(vals[upto - 1] as int, 4),
            7,
        )
    }
}

/// The data line of the plant file.
pub open spec fn plant_line(y: YearlyData) -> Seq<char> {
    plant_fields_text(plant_fields(y), 17) + seq!['\n']
}

/// The width of soil field `j`: seven columns for the profile depth, five
/// for the rest.
pub open spec fn soil_width(j: int) -> nat {
    if j == 3 {
        7
    } else {
        5
    }
}

/// The first `upto` soil fields rendered: each preceded by five blanks, with
/// two decimal places, right-justified to its width.
pub open spec fn soil_fields_text(vals: Seq<i64>, upto: int) -> Seq<char>
    decreases upto,
{
    if upto <= 0 {
        Seq::empty()
    } else {
        soil_fields_text(vals, upto - 1) + spaces(5) + spec_padded(
            spec_fixed(vals[upto - 1] as int, 2),
            soil_width(upto - 1),
        )
    }
}

/// The data line of the soil file.
pub open spec fn soil_line(y: YearlyData) -> Seq<char> {
    soil_fields_text(soil_fields(y), 7) + seq!['\n']
}

/// The data line of the simulation-control file: day of planting to six
/// columns, one blank, printout frequency to five columns.
pub open spec fn simctrl_line(y: YearlyData) -> Seq<char> {
    spec_padded(spec_fixed(y.day_of_planting as int, 0), 6) + seq![' '] + spec_padded(
        spec_fixed(y.printout_freq as int, 0),
        5,
    ) + seq!['\n']
}

impl YearlyData {
    /// The plant configuration file: the data line, then the column-name
    /// footer the simulator expects.
    pub fn save_plant_config(&self) -> (r: String)
        ensures
            r@ == plant_line(*self) + (
            "   Lfmax    EMP2    EMP1      PD      nb      rm      fc      tb   intot       n     lai       w      wr      wc      p1      f1    sla\n")@,
    {
        let mut vals: Vec<i64> = Vec::new();
        vals.push(self.plant_leaves_max_number);
        vals.push(self.plant_emp2);
        vals.push(self.plant_emp1);
        vals.push(self.plant_density);
        vals.push(self.plant_nb);
        vals.push(self.plant_leaf_max_appearance_rate);
        vals.push(self.plant_growth_canopy_fraction);
        vals.push(self.plant_min_repro_growth_temp);
        vals.push(self.plant_repro_phase_duration);
        vals.push(self.plant_leaves_number_of);
        vals.push(self.plant_leaf_area_index);
        vals.push(self.plant_matter);
        vals.push(self.plant_matter_root);
        vals.push(self.plant_matter_canopy);
        vals.push(self.plant_matter_leaves_removed);
        vals.push(self.plant_development_phase);
        vals.push(self.plant_leaf_specific_area);
        proof {
            assert(vals@ =~= plant_fields(*self));
        }
        let mut acc: Vec<char> = Vec::new();
        let mut i: usize = 0;
        while i < 17
            invariant
                vals@ == plant_fields(*self),
                i <= 17,
                acc@ == plant_fields_text(vals@, i as int),
            decreases 17 - i,
        {
            acc.push(' ');
            let mut f = pad_left(fmt_fixed(vals[i], 4), 7);
            acc.append(&mut f);
            proof {
                assert(acc@ =~= plant_fields_text(vals@, i + 1));
            }
            i = i + 1;
        }
        acc.push('\n');
        proof {
            assert(acc@ =~= plant_line(*self));
        }
        let mut s = chars_to_string(&acc);
        s.append(
            "   Lfmax    EMP2    EMP1      PD      nb      rm      fc      tb   intot       n     lai       w      wr      wc      p1      f1    sla\n",
        );
        s
    }

    /// The simulation-control file: the data line, then its footer.
    pub fn save_simulation_config(&self) -> (r: String)
        ensures
            r@ == simctrl_line(*self) + ("  DOYP  FROP\n")@,
    {
        let mut acc = pad_left(fmt_fixed(self.day_of_planting as i64, 0), 6);
        acc.push(' ');
        let mut f = pad_left(fmt_fixed(self.printout_freq as i64, 0), 5);
        acc.append(&mut f);
        acc.push('\n');
        proof {
            assert(acc@ =~= simctrl_line(*self));
        }
        let mut s = chars_to_string(&acc);
        s.append("  DOYP  FROP\n");
        s
    }

    /// The soil configuration file: the data line, then the column-name
    /// footer and the units line the simulator expects.
    pub fn save_soil_config(&self) -> (r: String)
        ensures
            r@ == soil_line(*self) + (
            "       WPp       FCp       STp          DP      DRNp        CN        SWC\n")@ + (
            "  (cm3/cm3) (cm3/cm3) (cm3/cm3)        (cm)  (frac/d)        -       (mm)\n")@,
    {
        let mut vals: Vec<i64> = Vec::new();
        vals.push(self.soil_water_content_wilting_point);
        vals.push(self.soil_water_content_field_capacity);
        vals.push(self.soil_water_content_saturation);
        vals.push(self.soil_profile_depth);
        vals.push(self.soil_drainage_daily_percent);
        vals.push(self.soil_runoff_curve_number);
        vals.push(self.soil_water_storage);
        proof {
            assert(vals@ =~= soil_fields(*self));
        }
        let mut acc: Vec<char> = Vec::new();
        let mut i: usize = 0;
        while i < 7
            invariant
                vals@ == soil_fields(*self),
                i <= 7,
                acc@ == soil_fields_text(vals@, i as int),
            decreases 7 - i,
        {
            let ghost acc_b = acc@;
            let mut blank: usize = 0;
            while blank < 5
                invariant
                    blank <= 5,
                    acc@ == acc_b + spaces(blank as nat),
                decreases 5 - blank,
            {
                acc.push(' ');
                blank = blank + 1;
                assert(acc@ =~= acc_b + spaces(blank as nat));
            }
            let w: usize = if i == 3 {
                7
            } else {
                5
            };
            let mut f = pad_left(fmt_fixed(vals[i], 2), w);
            acc.append(&mut f);
            proof {
                assert(acc@ =~= soil_fields_text(vals@, i + 1));
            }
            i = i + 1;
        }
        acc.push('\n');
        proof {
            assert(acc@ =~= soil_line(*self));
        }
        let mut s = chars_to_string(&acc);
        s.append("       WPp       FCp       STp          DP      DRNp        CN        SWC\n");
        s.append("  (cm3/cm3) (cm3/cm3) (cm3/cm3)        (cm)  (frac/d)        -       (mm)\n");
        s
    }
}

impl Default for YearlyData {
    /// The base template: the stock parameter set every cell starts from.
    fn default() -> (r: Self)
        ensures
            r.plant_leaves_max_number == 120000,
            r.plant_emp2 == 6400,
            r.plant_emp1 == 1040,
            r.plant_density == 50000,
            r.plant_nb == 53000,
            r.plant_leaf_max_appearance_rate == 1000,
            r.plant_growth_canopy_fraction == 8500,
            r.plant_min_repro_growth_temp == 100000,
            r.plant_repro_phase_duration == 3000000,
            r.plant_leaves_number_of == 20000,
            r.plant_leaf_area_index == 130,
            r.plant_matter == 3000,
            r.plant_matter_root == 450,
            r.plant_matter_canopy == 2550,
            r.plant_matter_leaves_removed == 300,
            r.plant_development_phase == 280,
            r.plant_leaf_specific_area == 350,
            r.soil_water_content_wilting_point == 6,
            r.soil_water_content_field_capacity == 17,
            r.soil_water_content_saturation == 28,
            r.soil_profile_depth == 14500,
            r.soil_drainage_daily_percent == 10,
            r.soil_runoff_curve_number == 5500,
            r.soil_water_storage == 24650,
            r.day_of_planting == 121,
            r.printout_freq == 3,
    {
        YearlyData {
            plant_leaves_max_number: 120000,
            plant_emp2: 6400,
            plant_emp1: 1040,
            plant_density: 50000,
            plant_nb: 53000,
            plant_leaf_max_appearance_rate: 1000,
            plant_growth_canopy_fraction: 8500,
            plant_min_repro_growth_temp: 100000,
            plant_repro_phase_duration: 3000000,
            plant_leaves_number_of: 20000,
            plant_leaf_area_index: 130,
            plant_matter: 3000,
            plant_matter_root: 450,
            plant_matter_canopy: 2550,
            plant_matter_leaves_removed: 300,
            plant_development_phase: 280,
            plant_leaf_specific_area: 350,
            soil_water_content_wilting_point: 6,
            soil_water_content_field_capacity: 17,
            soil_water_content_saturation: 28,
            soil_profile_depth: 14500,
            soil_drainage_daily_percent: 10,
            soil_runoff_curve_number: 5500,
            soil_water_storage: 24650,
            day_of_planting: 121,
            printout_freq: 3,
        }
    }
}


/// One token parses at scale `d` to a value within `lo ..= hi`.
pub open spec fn tok_some_in(t: Seq<char>, d: nat, lo: int, hi: int) -> bool {
    &&& token_val(t, d) is Some
    &&& lo <= token_val(t, d)->0 <= hi
}

/// The value a token parses to at scale `d`.
pub open spec fn tok_v(t: Seq<char>, d: nat) -> int {
    token_val(t, d)->0
}

/// One parsed row of the soil output file, in hundredths; `day` is the
/// integer day of year.
#[derive(Clone, Copy, Debug, PartialEq, Eq, Structural)]
pub struct SoilRec {
    pub day: i64,
    pub runoff: i64,
    pub infiltration: i64,
    pub drainage: i64,
    pub evapotranspiration: i64,
    pub evaporation: i64,
    pub potential_transpiration: i64,
    pub water_storage: i64,
    pub profile_ratio: i64,
    pub deficit_stress: i64,
    pub excess_stress: i64,
}

/// A soil output row is well-formed: sixteen tokens, the first an integer
/// day of year, the rest decimal values at two places.
pub open spec fn soil_row_ok(toks: Seq<Seq<char>>) -> bool {
    &&& toks.len() == 16
    &&& tok_some_in(toks[0], 0, i32::MIN as int, i32::MAX as int)
    &&& forall|k: int|
        1 <= k < 16 ==> tok_some_in(#[trigger] toks[k], 2, -(i64::MAX as int), i64::MAX as int)
}

/// The record a well-formed soil row denotes; the five raw weather columns
/// after the day are read but not retained.
pub open spec fn soil_row(toks: Seq<Seq<char>>) -> SoilRec {
    SoilRec {
        day: tok_v(toks[0], 0) as i64,
        runoff: tok_v(toks[6], 2) as i64,
        infiltration: tok_v(toks[7], 2) as i64,
        drainage: tok_v(toks[8], 2) as i64,
        evapotranspiration: tok_v(toks[9], 2) as i64,
        evaporation: tok_v(toks[10], 2) as i64,
        potential_transpiration: tok_v(toks[11], 2) as i64,
        water_storage: tok_v(toks[12], 2) as i64,
        profile_ratio: tok_v(toks[13], 2) as i64,
        deficit_stress: tok_v(toks[14], 2) as i64,
        excess_stress: tok_v(toks[15], 2) as i64,
    }
}

/// The records of the well-formed rows among `lines[i..]`, in order;
/// malformed rows are dropped.
pub open spec fn spec_soil_rows(lines: Seq<Seq<char>>, i: int) -> Seq<SoilRec>
    decreases lines.len() - i,
{
    if !(0 <= i < lines.len()) {
        Seq::empty()
    } else {
        (if soil_row_ok(spec_tokens_from(lines[i], 0)) {
            seq![soil_row(spec_tokens_from(lines[i], 0))]
        } else {
            Seq::empty()
        }) + spec_soil_rows(lines, i + 1)
    }
}

/// Column-wise accumulator for parsed soil output rows.
#[derive(Debug)]
pub struct SoilDataSetBuilder {
    pub day_of_year: Vec<i64>,
    pub soil_daily_runoff: Vec<i64>,
    pub soil_daily_infiltration: Vec<i64>,
    pub soil_daily_drainage: Vec<i64>,
    pub soil_evapotranspiration: Vec<i64>,
    pub soil_evaporation: Vec<i64>,
    pub plant_potential_transpiration: Vec<i64>,
    pub soil_water_storage_depth: Vec<i64>,
    pub soil_water_profile_ratio: Vec<i64>,
    pub soil_water_deficit_stress: Vec<i64>,
    pub soil_water_excess_stress: Vec<i64>,
}

/// The builder's columns hold exactly the fields of `rows`, in order.
pub open spec fn soil_builder_matches(b: SoilDataSetBuilder, rows: Seq<SoilRec>) -> bool {
    &&& b.day_of_year@.len() == rows.len()
    &&& b.soil_daily_runoff@.len() == rows.len()
    &&& b.soil_daily_infiltration@.len() == rows.len()
    &&& b.soil_daily_drainage@.len() == rows.len()
    &&& b.soil_evapotranspiration@.len() == rows.len()
    &&& b.soil_evaporation@.len() == rows.len()
    &&& b.plant_potential_transpiration@.len() == rows.len()
    &&& b.soil_water_storage_depth@.len() == rows.len()
    &&& b.soil_water_profile_ratio@.len() == rows.len()
    &&& b.soil_water_deficit_stress@.len() == rows.len()
    &&& b.soil_water_excess_stress@.len() == rows.len()
    &&& forall|i: int|
        0 <= i < rows.len() ==> {
            &&& b.day_of_year@[i] == (#[trigger] rows[i]).day
            &&& b.soil_daily_runoff@[i] == rows[i].runoff
            &&& b.soil_daily_infiltration@[i] == rows[i].infiltration
            &&& b.soil_daily_drainage@[i] == rows[i].drainage
            &&& b.soil_evapotranspiration@[i] == rows[i].evapotranspiration
            &&& b.soil_evaporation@[i] == rows[i].evaporation
            &&& b.plant_potential_transpiration@[i] == rows[i].potential_transpiration
            &&& b.soil_water_storage_depth@[i] == rows[i].water_storage
            &&& b.soil_water_profile_ratio@[i] == rows[i].profile_ratio
            &&& b.soil_water_deficit_stress@[i] == rows[i].deficit_stress
            &&& b.soil_water_excess_stress@[i] == rows[i].excess_stress
        }
}

impl Default for SoilDataSetBuilder {
    fn default() -> (r: Self)
        ensures
            soil_builder_matches(r, Seq::<SoilRec>::empty()),
    {
        SoilDataSetBuilder {
            day_of_year: Vec::new(),
            soil_daily_runoff: Vec::new(),
            soil_daily_infiltration: Vec::new(),
            soil_daily_drainage: Vec::new(),
            soil_evapotranspiration: Vec::new(),
            soil_evaporation: Vec::new(),
            plant_potential_transpiration: Vec::new(),
            soil_water_storage_depth: Vec::new(),
            soil_water_profile_ratio: Vec::new(),
            soil_water_deficit_stress: Vec::new(),
            soil_water_excess_stress: Vec::new(),
        }
    }
}

impl SoilDataSetBuilder {
    /// Take one tokenized row. A well-formed row appends one value to every
    /// column and the call returns true; any other row leaves the builder
    /// unchanged and the call returns false.
    pub fn deserialize(&mut self, toks: &Vec<Vec<char>>) -> (r: bool)
        ensures
            r == soil_row_ok(views_of(toks@)),
            ({
                let rec = soil_row(views_of(toks@));
                if soil_row_ok(views_of(toks@)) {
                    &&& final(self).day_of_year@ == old(self).day_of_year@.push(rec.day)
                    &&& final(self).soil_daily_runoff@ == old(self).soil_daily_runoff@.push(
                        rec.runoff,
                    )
                    &&& final(self).soil_daily_infiltration@
                        == old(self).soil_daily_infiltration@.push(rec.infiltration)
                    &&& final(self).soil_daily_drainage@ == old(self).soil_daily_drainage@.push(
                        rec.drainage,
                    )
                    &&& final(self).soil_evapotranspiration@
                        == old(self).soil_evapotranspiration@.push(rec.evapotranspiration)
                    &&& final(self).soil_evaporation@ == old(self).soil_evaporation@.push(
                        rec.evaporation,
                    )
                    &&& final(self).plant_potential_transpiration@
                        == old(self).plant_potential_transpiration@.push(
                        rec.potential_transpiration,
                    )
                    &&& final(self).soil_water_storage_depth@
                        == old(self).soil_water_storage_depth@.push(rec.water_storage)
                    &&& final(self).soil_water_profile_ratio@
                        == old(self).soil_water_profile_ratio@.push(rec.profile_ratio)
                    &&& final(self).soil_water_deficit_stress@
                        == old(self).soil_water_deficit_stress@.push(rec.deficit_stress)
                    &&& final(self).soil_water_excess_stress@
                        == old(self).soil_water_excess_stress@.push(rec.excess_stress)
                } else {
                    *final(self) == *old(self)
                }
            }),
    {
        let ghost tv = views_of(toks@);
        if toks.len() != 16 {
            return false;
        }
        proof {
            assert(tv[0] == toks@[0]@);
        }
        let day = match parse_fixed(&toks[0], 0) {
            Some(v) => v,
            None => {
                return false;
            },
        };
        if day < i32::MIN as i64 || day > i32::MAX as i64 {
            return false;
        }
        let mut vals: Vec<i64> = Vec::new();
        let mut k: usize = 1;
        while k < 16
            invariant
                1 <= k <= 16,
                toks@.len() == 16,
                tv == views_of(toks@),
                vals@.len() == k - 1,
                forall|j: int|
                    1 <= j < k ==> tok_some_in(
                        #[trigger] tv[j],
                        2,
                        -(i64::MAX as int),
                        i64::MAX as int,
                    ) && vals@[j - 1] == tok_v(tv[j], 2),
            decreases 16 - k,
        {
            proof {
                assert(tv[k as int] == toks@[k as int]@);
            }
            match parse_fixed(&toks[k], 2) {
                Some(v) => {
                    vals.push(v);
                },
                None => {
                    return false;
                },
            }
            k = k + 1;
        }
        self.day_of_year.push(day);
        self.soil_daily_runoff.push(vals[5]);
        self.soil_daily_infiltration.push(vals[6]);
        self.soil_daily_drainage.push(vals[7]);
        self.soil_evapotranspiration.push(vals[8]);
        self.soil_evaporation.push(vals[9]);
        self.plant_potential_transpiration.push(vals[10]);
        self.soil_water_storage_depth.push(vals[11]);
        self.soil_water_profile_ratio.push(vals[12]);
        self.soil_water_deficit_stress.push(vals[13]);
        self.soil_water_excess_stress.push(vals[14]);
        true
    }

    /// Parse the soil output file: skip the six header lines, then take
    /// every remaining row, dropping malformed ones.
    pub fn load(content: &str) -> (r: Self)
        ensures
            soil_builder_matches(r, spec_soil_rows(spec_lines_from(content@, 0), 6)),
    {
        let cs = str_chars(content);
        let lines = split_lines(&cs);
        let ghost lv = views_of(lines@);
        let mut b = SoilDataSetBuilder::default();
        let ghost mut rows: Seq<SoilRec> = Seq::empty();
        let mut i: usize = 6;
        while i < lines.len()
            invariant
                6 <= i,
                lv == views_of(lines@),
                lv == spec_lines_from(cs@, 0),
                lines@.len() == lv.len(),
                soil_builder_matches(b, rows),
                rows + spec_soil_rows(lv, i as int) == spec_soil_rows(lv, 6),
            decreases lines@.len() - i,
        {
            let ghost rows0 = rows;
            let toks = tokenize(&lines[i]);
            proof {
                assert(lv[i as int] == lines@[i as int]@);
            }
            let ok = b.deserialize(&toks);
            proof {
                let tv = spec_tokens_from(lv[i as int], 0);
                assert(views_of(toks@) == tv);
                if ok {
                    rows = rows.push(soil_row(tv));
                    assert(rows0 + (seq![soil_row(tv)] + spec_soil_rows(lv, i + 1))
                        =~= rows + spec_soil_rows(lv, i + 1));
                } else {
                    assert(rows0 + (Seq::<SoilRec>::empty() + spec_soil_rows(lv, i + 1))
                        =~= rows + spec_soil_rows(lv, i + 1));
                }
            }
            i = i + 1;
        }
        proof {
            assert(rows + spec_soil_rows(lv, i as int) =~= rows);
        }
        b
    }
}


/// One parsed row of the plant output file, in hundredths; `day` is the
/// integer day of year.
#[derive(Clone, Copy, Debug, PartialEq, Eq, Structural)]
pub struct PlantRec {
    pub day: i64,
    pub leaf_count: i64,
    pub accumulated_temp: i64,
    pub matter: i64,
    pub matter_canopy: i64,
    pub matter_fruit: i64,
    pub matter_root: i64,
    pub leaf_area_index: i64,
}

/// A plant output row is well-formed: eight tokens, the first an integer
/// day of year, the rest decimal values at two places.
pub open spec fn plant_row_ok(toks: Seq<Seq<char>>) -> bool {
    &&& toks.len() == 8
    &&& tok_some_in(toks[0], 0, i32::MIN as int, i32::MAX as int)
    &&& forall|k: int|
        1 <= k < 8 ==> tok_some_in(#[trigger] toks[k], 2, -(i64::MAX as int), i64::MAX as int)
}

/// The record a well-formed plant row denotes.
pub open spec fn plant_row(toks: Seq<Seq<char>>) -> PlantRec {
    PlantRec {
        day: tok_v(toks[0], 0) as i64,
        leaf_count: tok_v(toks[1], 2) as i64,
        accumulated_temp: tok_v(toks[2], 2) as i64,
        matter: tok_v(toks[3], 2) as i64,
        matter_canopy: tok_v(toks[4], 2) as i64,
        matter_fruit: tok_v(toks[5], 2) as i64,
        matter_root: tok_v(toks[6], 2) as i64,
        leaf_area_index: tok_v(toks[7], 2) as i64,
    }
}

/// The records of the well-formed rows among `lines[i..]`, in order;
/// malformed rows are dropped.
pub open spec fn spec_plant_rows(lines: Seq<Seq<char>>, i: int) -> Seq<PlantRec>
    decreases lines.len() - i,
{
    if !(0 <= i < lines.len()) {
        Seq::empty()
    } else {
        (if plant_row_ok(spec_tokens_from(lines[i], 0)) {
            seq![plant_row(spec_tokens_from(lines[i], 0))]
        } else {
            Seq::empty()
        }) + spec_plant_rows(lines, i + 1)
    }
}

/// Column-wise accumulator for parsed plant output rows.
#[derive(Debug)]
pub struct PlantDataSetBuilder {
    pub day_of_year: Vec<i64>,
    pub plant_leaf_count: Vec<i64>,
    pub air_accumulated_temp: Vec<i64>,
    pub plant_matter: Vec<i64>,
    pub plant_matter_canopy: Vec<i64>,
    pub plant_matter_fruit: Vec<i64>,
    pub plant_matter_root: Vec<i64>,
    pub plant_leaf_area_index: Vec<i64>,
}

/// The builder's columns hold exactly the fields of `rows`, in order.
pub open spec fn plant_builder_matches(b: PlantDataSetBuilder, rows: Seq<PlantRec>) -> bool {
    &&& b.day_of_year@.len() == rows.len()
    &&& b.plant_leaf_count@.len() == rows.len()
    &&& b.air_accumulated_temp@.len() == rows.len()
    &&& b.plant_matter@.len() == rows.len()
    &&& b.plant_matter_canopy@.len() == rows.len()
    &&& b.plant_matter_fruit@.len() == rows.len()
    &&& b.plant_matter_root@.len() == rows.len()
    &&& b.plant_leaf_area_index@.len() == rows.len()
    &&& forall|i: int|
        0 <= i < rows.len() ==> {
            &&& b.day_of_year@[i] == (#[trigger] rows[i]).day
            &&& b.plant_leaf_count@[i] == rows[i].leaf_count
            &&& b.air_accumulated_temp@[i] == rows[i].accumulated_temp
            &&& b.plant_matter@[i] == rows[i].matter
            &&& b.plant_matter_canopy@[i] == rows[i].matter_canopy
            &&& b.plant_matter_fruit@[i] == rows[i].matter_fruit
            &&& b.plant_matter_root@[i] == rows[i].matter_root
            &&& b.plant_leaf_area_index@[i] == rows[i].leaf_area_index
        }
}

impl Default for PlantDataSetBuilder {
    fn default() -> (r: Self)
        ensures
            plant_builder_matches(r, Seq::<PlantRec>::empty()),
    {
        PlantDataSetBuilder {
            day_of_year: Vec::new(),
            plant_leaf_count: Vec::new(),
            air_accumulated_temp: Vec::new(),
            plant_matter: Vec::new(),
            plant_matter_canopy: Vec::new(),
            plant_matter_fruit: Vec::new(),
            plant_matter_root: Vec::new(),
            plant_leaf_area_index: Vec::new(),
        }
    }
}

impl PlantDataSetBuilder {
    /// Take one tokenized row. A well-formed row appends one value to every
    /// column and the call returns true; any other row leaves the builder
    /// unchanged and the call returns false.
    pub fn deserialize(&mut self, toks: &Vec<Vec<char>>) -> (r: bool)
        ensures
            r == plant_row_ok(views_of(toks@)),
            ({
                let rec = plant_row(views_of(toks@));
                if plant_row_ok(views_of(toks@)) {
                    &&& final(self).day_of_year@ == old(self).day_of_year@.push(rec.day)
                    &&& final(self).plant_leaf_count@ == old(self).plant_leaf_count@.push(
                        rec.leaf_count,
                    )
                    &&& final(self).air_accumulated_temp@ == old(self).air_accumulated_temp@.push(
                        rec.accumulated_temp,
                    )
                    &&& final(self).plant_matter@ == old(self).plant_matter@.push(rec.matter)
                    &&& final(self).plant_matter_canopy@ == old(self).plant_matter_canopy@.push(
                        rec.matter_canopy,
                    )
                    &&& final(self).plant_matter_fruit@ == old(self).plant_matter_fruit@.push(
                        rec.matter_fruit,
                    )
                    &&& final(self).plant_matter_root@ == old(self).plant_matter_root@.push(
                        rec.matter_root,
                    )
                    &&& final(self).plant_leaf_area_index@
                        == old(self).plant_leaf_area_index@.push(rec.leaf_area_index)
                } else {
                    *final(self) == *old(self)
                }
            }),
    {
        let ghost tv = views_of(toks@);
        if toks.len() != 8 {
            return false;
        }
        proof {
            assert(tv[0] == toks@[0]@);
        }
        let day = match parse_fixed(&toks[0], 0) {
            Some(v) => v,
            None => {
                return false;
            },
        };
        if day < i32::MIN as i64 || day > i32::MAX as i64 {
            return false;
        }
        let mut vals: Vec<i64> = Vec::new();
        let mut k: usize = 1;
        while k < 8
            invariant
                1 <= k <= 8,
                toks@.len() == 8,
                tv == views_of(toks@),
                vals@.len() == k - 1,
                forall|j: int|
                    1 <= j < k ==> tok_some_in(
                        #[trigger] tv[j],
                        2,
                        -(i64::MAX as int),
                        i64::MAX as int,
                    ) && vals@[j - 1] == tok_v(tv[j], 2),
            decreases 8 - k,
        {
            proof {
                assert(tv[k as int] == toks@[k as int]@);
            }
            match parse_fixed(&toks[k], 2) {
                Some(v) => {
                    vals.push(v);
                },
                None => {
                    return false;
                },
            }
            k = k + 1;
        }
        self.day_of_year.push(day);
        self.plant_leaf_count.push(vals[0]);
        self.air_accumulated_temp.push(vals[1]);
        self.plant_matter.push(vals[2]);
        self.plant_matter_canopy.push(vals[3]);
        self.plant_matter_fruit.push(vals[4]);
        self.plant_matter_root.push(vals[5]);
        self.plant_leaf_area_index.push(vals[6]);
        true
    }

    /// Parse the plant output file: skip the nine header lines, then take
    /// every remaining row, dropping malformed ones.
    pub fn load(content: &str) -> (r: Self)
        ensures
            plant_builder_matches(r, spec_plant_rows(spec_lines_from(content@, 0), 9)),
    {
        let cs = str_chars(content);
        let lines = split_lines(&cs);
        let ghost lv = views_of(lines@);
        let mut b = PlantDataSetBuilder::default();
        let ghost mut rows: Seq<PlantRec> = Seq::empty();
        let mut i: usize = 9;
        while i < lines.len()
            invariant
                9 <= i,
                lv == views_of(lines@),
                lv == spec_lines_from(cs@, 0),
                lines@.len() == lv.len(),
                plant_builder_matches(b, rows),
                rows + spec_plant_rows(lv, i as int) == spec_plant_rows(lv, 9),
            decreases lines@.len() - i,
        {
            let ghost rows0 = rows;
            let toks = tokenize(&lines[i]);
            proof {
                assert(lv[i as int] == lines@[i as int]@);
            }
            let ok = b.deserialize(&toks);
            proof {
                let tv = spec_tokens_from(lv[i as int], 0);
                assert(views_of(toks@) == tv);
                if ok {
                    rows = rows.push(plant_row(tv));
                    assert(rows0 + (seq![plant_row(tv)] + spec_plant_rows(lv, i + 1))
                        =~= rows + spec_plant_rows(lv, i + 1));
                } else {
                    assert(rows0 + (Seq::<PlantRec>::empty() + spec_plant_rows(lv, i + 1))
                        =~= rows + spec_plant_rows(lv, i + 1));
                }
            }
            i = i + 1;
        }
        proof {
            assert(rows + spec_plant_rows(lv, i as int) =~= rows);
        }
        b
    }
}

/// The soil-state time series of one cell, column per quantity.
#[derive(Debug)]
pub struct SoilDataSet {
    pub day_of_year: Series,
    pub soil_daily_runoff: Series,
    pub soil_daily_infiltration: Series,
    pub soil_daily_drainage: Series,
    pub soil_evapotranspiration: Series,
    pub soil_evaporation: Series,
    pub plant_potential_transpiration: Series,
    pub soil_water_storage_depth: Series,
    pub soil_water_profile_ratio: Series,
    pub soil_water_deficit_stress: Series,
    pub soil_water_excess_stress: Series,
}

/// The data set's columns hold exactly the fields of `rows`, in order.
pub open spec fn soil_set_matches(s: SoilDataSet, rows: Seq<SoilRec>) -> bool {
    &&& series_seq(s.day_of_year).len() == rows.len()
    &&& series_seq(s.soil_daily_runoff).len() == rows.len()
    &&& series_seq(s.soil_daily_infiltration).len() == rows.len()
    &&& series_seq(s.soil_daily_drainage).len() == rows.len()
    &&& series_seq(s.soil_evapotranspiration).len() == rows.len()
    &&& series_seq(s.soil_evaporation).len() == rows.len()
    &&& series_seq(s.plant_potential_transpiration).len() == rows.len()
    &&& series_seq(s.soil_water_storage_depth).len() == rows.len()
    &&& series_seq(s.soil_water_profile_ratio).len() == rows.len()
    &&& series_seq(s.soil_water_deficit_stress).len() == rows.len()
    &&& series_seq(s.soil_water_excess_stress).len() == rows.len()
    &&& forall|i: int|
        0 <= i < rows.len() ==> {
            &&& series_seq(s.day_of_year)[i] == (#[trigger] rows[i]).day
            &&& series_seq(s.soil_daily_runoff)[i] == rows[i].runoff
            &&& series_seq(s.soil_daily_infiltration)[i] == rows[i].infiltration
            &&& series_seq(s.soil_daily_drainage)[i] == rows[i].drainage
            &&& series_seq(s.soil_evapotranspiration)[i] == rows[i].evapotranspiration
            &&& series_seq(s.soil_evaporation)[i] == rows[i].evaporation
            &&& series_seq(s.plant_potential_transpiration)[i] == rows[i].potential_transpiration
            &&& series_seq(s.soil_water_storage_depth)[i] == rows[i].water_storage
            &&& series_seq(s.soil_water_profile_ratio)[i] == rows[i].profile_ratio
            &&& series_seq(s.soil_water_deficit_stress)[i] == rows[i].deficit_stress
            &&& series_seq(s.soil_water_excess_stress)[i] == rows[i].excess_stress
        }
}

/// The plant-growth time series of one cell, column per quantity.
#[derive(Debug)]
pub struct PlantDataSet {
    pub day_of_year: Series,
    pub plant_leaf_count: Series,
    pub air_accumulated_temp: Series,
    pub plant_matter: Series,
    pub plant_matter_canopy: Series,
    pub plant_matter_fruit: Series,
    pub plant_matter_root: Series,
    pub plant_leaf_area_index: Series,
}

/// The data set's columns hold exactly the fields of `rows`, in order.
pub open spec fn plant_set_matches(s: PlantDataSet, rows: Seq<PlantRec>) -> bool {
    &&& series_seq(s.day_of_year).len() == rows.len()
    &&& series_seq(s.plant_leaf_count).len() == rows.len()
    &&& series_seq(s.air_accumulated_temp).len() == rows.len()
    &&& series_seq(s.plant_matter).len() == rows.len()
    &&& series_seq(s.plant_matter_canopy).len() == rows.len()
    &&& series_seq(s.plant_matter_fruit).len() == rows.len()
    &&& series_seq(s.plant_matter_root).len() == rows.len()
    &&& series_seq(s.plant_leaf_area_index).len() == rows.len()
    &&& forall|i: int|
        0 <= i < rows.len() ==> {
            &&& series_seq(s.day_of_year)[i] == (#[trigger] rows[i]).day
            &&& series_seq(s.plant_leaf_count)[i] == rows[i].leaf_count
            &&& series_seq(s.air_accumulated_temp)[i] == rows[i].accumulated_temp
            &&& series_seq(s.plant_matter)[i] == rows[i].matter
            &&& series_seq(s.plant_matter_canopy)[i] == rows[i].matter_canopy
            &&& series_seq(s.plant_matter_fruit)[i] == rows[i].matter_fruit
            &&& series_seq(s.plant_matter_root)[i] == rows[i].matter_root
            &&& series_seq(s.plant_leaf_area_index)[i] == rows[i].leaf_area_index
        }
}

/// Both output tables of one cell.
#[derive(Debug)]
pub struct SimpleCropDataSet {
    pub plant: PlantDataSet,
    pub soil: SoilDataSet,
}

impl SimpleCropDataSet {
    /// Parse the two output files of one cell into its data sets.
    pub fn load(plant_content: &str, soil_content: &str) -> (r: Self)
        ensures
            plant_set_matches(r.plant, spec_plant_rows(spec_lines_from(plant_content@, 0), 9)),
            soil_set_matches(r.soil, spec_soil_rows(spec_lines_from(soil_content@, 0), 6)),
    {
        let pb = PlantDataSetBuilder::load(plant_content);
        let plant = PlantDataSet {
            day_of_year: Series::from_vec(pb.day_of_year),
            plant_leaf_count: Series::from_vec(pb.plant_leaf_count),
            air_accumulated_temp: Series::from_vec(pb.air_accumulated_temp),
            plant_matter: Series::from_vec(pb.plant_matter),
            plant_matter_canopy: Series::from_vec(pb.plant_matter_canopy),
            plant_matter_fruit: Series::from_vec(pb.plant_matter_fruit),
            plant_matter_root: Series::from_vec(pb.plant_matter_root),
            plant_leaf_area_index: Series::from_vec(pb.plant_leaf_area_index),
        };
        let sb = SoilDataSetBuilder::load(soil_content);
        let soil = SoilDataSet {
            day_of_year: Series::from_vec(sb.day_of_year),
            soil_daily_runoff: Series::from_vec(sb.soil_daily_runoff),
            soil_daily_infiltration: Series::from_vec(sb.soil_daily_infiltration),
            soil_daily_drainage: Series::from_vec(sb.soil_daily_drainage),
            soil_evapotranspiration: Series::from_vec(sb.soil_evapotranspiration),
            soil_evaporation: Series::from_vec(sb.soil_evaporation),
            plant_potential_transpiration: Series::from_vec(sb.plant_potential_transpiration),
            soil_water_storage_depth: Series::from_vec(sb.soil_water_storage_depth),
            soil_water_profile_ratio: Series::from_vec(sb.soil_water_profile_ratio),
            soil_water_deficit_stress: Series::from_vec(sb.soil_water_deficit_stress),
            soil_water_excess_stress: Series::from_vec(sb.soil_water_excess_stress),
        };
        SimpleCropDataSet { plant, soil }
    }
}

/// The full configuration of one cell run: daily series plus yearly scalars.
#[derive(Debug)]
pub struct SimpleCropConfig {
    pub daily: DailyData,
    pub yearly: YearlyData,
}

/// The rendered contents of the five input files of one cell run.
#[derive(Debug)]
pub struct InputFiles {
    pub weather: String,
    pub irrigation: String,
    pub plant: String,
    pub soil: String,
    pub simctrl: String,
}

impl SimpleCropConfig {
    /// Render every input file of one cell run.
    pub fn save(&self) -> (r: InputFiles)
        requires
            self.daily.weather_wf(),
        ensures
            r.weather@ == weather_text(self.daily, series_seq(self.daily.temp_max).len() as int),
            r.irrigation@ == irrigation_text(
                series_seq(self.daily.irrigation),
                series_seq(self.daily.irrigation).len() as int,
            ),
            r.plant@ == plant_line(self.yearly) + (
            "   Lfmax    EMP2    EMP1      PD      nb      rm      fc      tb   intot       n     lai       w      wr      wc      p1      f1    sla\n")@,
            r.soil@ == soil_line(self.yearly) + (
            "       WPp       FCp       STp          DP      DRNp        CN        SWC\n")@ + (
            "  (cm3/cm3) (cm3/cm3) (cm3/cm3)        (cm)  (frac/d)        -       (mm)\n")@,
            r.simctrl@ == simctrl_line(self.yearly) + ("  DOYP  FROP\n")@,
    {
        InputFiles {
            weather: self.daily.save_weather(),
            irrigation: self.daily.save_irrigation(),
            plant: self.yearly.save_plant_config(),
            soil: self.yearly.save_soil_config(),
            simctrl: self.yearly.save_simulation_config(),
        }
    }
}

} // verus!
