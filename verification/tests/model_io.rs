//! Fixed-width codec: exact rendered input files and parsed output files.
use simplecrop::Series;
use simplecrop::model::DailyData;
use simplecrop::model::PlantDataSetBuilder;
use simplecrop::model::SimpleCropConfig;
use simplecrop::model::SimpleCropDataSet;
use simplecrop::model::SoilDataSetBuilder;
use simplecrop::model::YearlyData;
use simplecrop::text::parse_fixed;
use simplecrop::text::split_lines;
use simplecrop::text::tokenize;

fn sample_daily() -> DailyData {
    // all values in tenths
    DailyData {
        irrigation: Series::from_vec(vec![0, 10]),
        energy_flux: Series::from_vec(vec![51]),
        temp_max: Series::from_vec(vec![200]),
        temp_min: Series::from_vec(vec![44]),
        rainfall: Series::from_vec(vec![239]),
        photosynthetic_energy_flux: Series::from_vec(vec![107]),
    }
}

#[test]
fn write_daily_data() {
    let w = sample_daily();

    assert_eq!(
        w.save_weather(),
        "    1   5.1  20.0   4.4  23.9              10.7\n"
    );

    assert_eq!("    1  0.0\n    2  1.0\n", w.save_irrigation());
}

#[test]
fn write_yearly_data() {
    let config = YearlyData::default();

    assert_eq!(
        config.save_plant_config(),
        " 12.0000  0.6400  0.1040  5.0000  5.3000  0.1000  0.8500 10.0000 300.0000  2.0000  0.0130  0.3000  0.0450  0.2550  0.0300  0.0280  0.0350\n   Lfmax    EMP2    EMP1      PD      nb      rm      fc      tb   intot       n     lai       w      wr      wc      p1      f1    sla\n"
    );

    assert_eq!(
        config.save_simulation_config(),
        "   121     3\n  DOYP  FROP\n"
    );

    assert_eq!(
        config.save_soil_config(),
        "      0.06      0.17      0.28      145.00      0.10     55.00     246.50\n       WPp       FCp       STp          DP      DRNp        CN        SWC\n  (cm3/cm3) (cm3/cm3) (cm3/cm3)        (cm)  (frac/d)        -       (mm)\n"
    );
}

#[test]
fn save_covers_all_five_files() {
    let config = SimpleCropConfig {
        daily: sample_daily(),
        yearly: YearlyData::default(),
    };
    let files = config.save();
    assert_eq!(files.weather, "    1   5.1  20.0   4.4  23.9              10.7\n");
    assert_eq!(files.irrigation, "    1  0.0\n    2  1.0\n");
    assert!(files.plant.starts_with(" 12.0000"));
    assert!(files.soil.ends_with("       (mm)\n"));
    assert_eq!(files.simctrl, "   121     3\n  DOYP  FROP\n");
}

const SOIL_OUT: &str = "h\nh\nh\nh\nh\nh\n    1   5.1  20.0   4.4  23.9   0.0  0.00  0.00  1.86  2.25  2.23  0.02 260.97  1.80  1.00  1.00\nbad line that is dropped\n    2   5.0  19.0   4.0  20.0   0.0  0.10  0.20  0.30  0.40  0.50  0.60   7.00  0.07  0.90  0.80\n";

#[test]
fn read_soil_t() {
    // values are hundredths after parsing
    let data = SoilDataSetBuilder::load(SOIL_OUT);
    assert_eq!(data.day_of_year[0], 1);
    assert_eq!(data.soil_daily_runoff[0], 0);
    assert_eq!(data.soil_daily_infiltration[0], 0);
    assert_eq!(data.soil_daily_drainage[0], 186);
    assert_eq!(data.soil_evapotranspiration[0], 225);
    assert_eq!(data.soil_evaporation[0], 223);
    assert_eq!(data.plant_potential_transpiration[0], 2);
    assert_eq!(data.soil_water_storage_depth[0], 26097);
    assert_eq!(data.soil_water_profile_ratio[0], 180);
    assert_eq!(data.soil_water_deficit_stress[0], 100);
    assert_eq!(data.soil_water_excess_stress[0], 100);
    // the malformed line was dropped, the next good row kept
    assert_eq!(data.day_of_year.len(), 2);
    assert_eq!(data.day_of_year[1], 2);
    assert_eq!(data.soil_daily_drainage[1], 30);
}

const PLANT_OUT: &str = "h\nh\nh\nh\nh\nh\nh\nh\nh\n    1   2.0   0.00   0.30  0.25  0.00  0.05  0.01\n";

#[test]
fn read_plant_t() {
    let data = PlantDataSetBuilder::load(PLANT_OUT);
    assert_eq!(data.plant_leaf_count[0], 200);
    assert_eq!(data.air_accumulated_temp[0], 0);
    assert_eq!(data.plant_matter[0], 30);
    assert_eq!(data.plant_matter_canopy[0], 25);
    assert_eq!(data.plant_matter_fruit[0], 0);
    assert_eq!(data.plant_leaf_area_index[0], 1);
}

#[test]
fn load_both_output_tables() {
    let data = SimpleCropDataSet::load(PLANT_OUT, SOIL_OUT);
    assert_eq!(data.plant.day_of_year.len(), 1);
    assert_eq!(data.plant.plant_matter_root.get(0), 5);
    assert_eq!(data.soil.day_of_year.len(), 2);
    assert_eq!(data.soil.soil_water_storage_depth.get(0), 26097);
    assert_eq!(data.soil.soil_water_storage_depth.to_vec(), vec![26097, 700]);
}

#[test]
fn short_files_yield_empty_tables() {
    let data = SimpleCropDataSet::load("one\nline\n", "h\n");
    assert_eq!(data.plant.day_of_year.len(), 0);
    assert_eq!(data.soil.day_of_year.len(), 0);
}

#[test]
fn negative_and_wide_values_render_exactly() {
    let w = DailyData {
        irrigation: Series::from_vec(vec![]),
        energy_flux: Series::from_vec(vec![51]),
        temp_max: Series::from_vec(vec![200]),
        temp_min: Series::from_vec(vec![-44]),
        rainfall: Series::from_vec(vec![12345]),
        photosynthetic_energy_flux: Series::from_vec(vec![107]),
    };
    assert_eq!(
        w.save_weather(),
        "    1   5.1  20.0  -4.41234.5              10.7\n"
    );
    assert_eq!(w.save_irrigation(), "");
}

#[test]
fn plant_and_soil_configs_round_trip() {
    let config = YearlyData::default();

    // re-decode the plant data line at its four declared decimal places
    let plant_text: Vec<char> = config.save_plant_config().chars().collect();
    let lines = split_lines(&plant_text);
    let toks = tokenize(&lines[0]);
    assert_eq!(toks.len(), 17);
    let decoded: Vec<i64> = toks.iter().map(|t| parse_fixed(t, 4).unwrap()).collect();
    assert_eq!(
        decoded,
        vec![
            config.plant_leaves_max_number,
            config.plant_emp2,
            config.plant_emp1,
            config.plant_density,
            config.plant_nb,
            config.plant_leaf_max_appearance_rate,
            config.plant_growth_canopy_fraction,
            config.plant_min_repro_growth_temp,
            config.plant_repro_phase_duration,
            config.plant_leaves_number_of,
            config.plant_leaf_area_index,
            config.plant_matter,
            config.plant_matter_root,
            config.plant_matter_canopy,
            config.plant_matter_leaves_removed,
            config.plant_development_phase,
            config.plant_leaf_specific_area,
        ]
    );

    // re-decode the soil data line at its two declared decimal places
    let soil_text: Vec<char> = config.save_soil_config().chars().collect();
    let lines = split_lines(&soil_text);
    let toks = tokenize(&lines[0]);
    assert_eq!(toks.len(), 7);
    let decoded: Vec<i64> = toks.iter().map(|t| parse_fixed(t, 2).unwrap()).collect();
    assert_eq!(
        decoded,
        vec![
            config.soil_water_content_wilting_point,
            config.soil_water_content_field_capacity,
            config.soil_water_content_saturation,
            config.soil_profile_depth,
            config.soil_drainage_daily_percent,
            config.soil_runoff_curve_number,
            config.soil_water_storage,
        ]
    );

    // re-decode the simulation-control line
    let ctrl_text: Vec<char> = config.save_simulation_config().chars().collect();
    let lines = split_lines(&ctrl_text);
    let toks = tokenize(&lines[0]);
    assert_eq!(toks.len(), 2);
    assert_eq!(parse_fixed(&toks[0], 0), Some(config.day_of_planting as i64));
    assert_eq!(parse_fixed(&toks[1], 0), Some(config.printout_freq as i64));
}

fn tok(s: &str) -> Vec<char> {
    s.chars().collect()
}

#[test]
fn token_grammar_edges() {
    // plain and signed values at two decimal places (hundredths)
    assert_eq!(parse_fixed(&tok("1.86"), 2), Some(186));
    assert_eq!(parse_fixed(&tok("1.8"), 2), Some(180));
    assert_eq!(parse_fixed(&tok("7"), 2), Some(700));
    assert_eq!(parse_fixed(&tok("+0.07"), 2), Some(7));
    assert_eq!(parse_fixed(&tok("-4.4"), 1), Some(-44));
    assert_eq!(parse_fixed(&tok("0"), 0), Some(0));
    // outside the grammar: empty, bare signs or points, stray characters,
    // more fraction digits than the scale
    assert_eq!(parse_fixed(&tok(""), 2), None);
    assert_eq!(parse_fixed(&tok("-"), 2), None);
    assert_eq!(parse_fixed(&tok("."), 2), None);
    assert_eq!(parse_fixed(&tok(".5"), 2), None);
    assert_eq!(parse_fixed(&tok("5."), 2), None);
    assert_eq!(parse_fixed(&tok("1.234"), 2), None);
    assert_eq!(parse_fixed(&tok("1.5"), 0), None);
    assert_eq!(parse_fixed(&tok("1e3"), 2), None);
    assert_eq!(parse_fixed(&tok("1.2.3"), 2), None);
    // too large for the scaled representation
    assert_eq!(parse_fixed(&tok("99999999999999999999"), 2), None);
}

#[test]
fn lines_and_tokens_split_as_read() {
    let text: Vec<char> = "a b\n  c\td \r\n\ne".chars().collect();
    let lines = split_lines(&text);
    assert_eq!(lines.len(), 4);
    assert_eq!(lines[0], tok("a b"));
    assert_eq!(lines[1], tok("  c\td "));
    assert_eq!(lines[2], tok(""));
    assert_eq!(lines[3], tok("e"));
    let toks = tokenize(&lines[1]);
    assert_eq!(toks, vec![tok("c"), tok("d")]);
    assert_eq!(tokenize(&lines[2]), Vec::<Vec<char>>::new());
}
