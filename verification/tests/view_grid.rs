//! Dimensions, reordering views, grid enumeration and cell materialization.
use simplecrop::Dimension;
use simplecrop::Error;
use simplecrop::Series;
use simplecrop::SliceType;
use simplecrop::grid::enumerate_cells;
use simplecrop::grid::spatial_dimensions;
use simplecrop::model::DailyData;
use simplecrop::model::YearlyData;
use simplecrop::run::materialize_cell;
use simplecrop::vars::InMemoryVariable;
use simplecrop::vars::VarView;
use simplecrop::vars::Variable;

fn grid_variable() -> InMemoryVariable {
    // dimensions x(2), time(5); row-major data 0..10
    InMemoryVariable {
        name: String::from("surface_water__depth"),
        dims: vec![Dimension::new("x", 2), Dimension::new("time", 5)],
        data: (0..10).collect(),
    }
}

#[test]
fn dimension_accessors() {
    let d = Dimension::new("x", 3);
    assert_eq!(d.name(), "x");
    assert_eq!(d.size(), 3);
    assert_eq!(d.iter(), vec![0, 1, 2]);
    assert_eq!(d, Dimension::new("x", 3));
    assert_ne!(d, Dimension::new("x", 4));
    assert_ne!(d, Dimension::new("y", 3));
}

#[test]
fn slice_type_predicates() {
    assert!(SliceType::Index(4).is_index());
    assert!(!SliceType::Index(4).is_all());
    assert!(SliceType::All.is_all());
    assert!(matches!(SliceType::default(), SliceType::All));
}

#[test]
fn in_memory_slice() {
    let v = grid_variable();
    assert_eq!(v.name(), "surface_water__depth");
    assert_eq!(v.get_dimensions().len(), 2);
    let row = v.slice(&vec![SliceType::Index(1), SliceType::All]).unwrap();
    assert_eq!(row, vec![5, 6, 7, 8, 9]);
}

#[test]
fn view_slices_like_permuted_direct_slice() {
    // view exposes (time, x); its native order is (x, time)
    let order = vec![Dimension::new("time", 5), Dimension::new("x", 2)];
    let view = VarView::try_new(grid_variable(), order).unwrap();
    assert_eq!(view.get_dimensions()[0].name(), "time");

    let through_view = view
        .slice(&vec![SliceType::All, SliceType::Index(1)])
        .unwrap();
    let direct = grid_variable()
        .slice(&vec![SliceType::Index(1), SliceType::All])
        .unwrap();
    assert_eq!(through_view, direct);
}

#[test]
fn slice_length_mismatch_is_invalid_slice() {
    let v = grid_variable();
    assert_eq!(v.slice(&vec![SliceType::All]), Err(Error::InvalidSlice));

    let order = vec![Dimension::new("time", 5), Dimension::new("x", 2)];
    let view = VarView::try_new(grid_variable(), order).unwrap();
    assert_eq!(view.slice(&vec![SliceType::All]), Err(Error::InvalidSlice));
    assert_eq!(
        view.slice(&vec![
            SliceType::All,
            SliceType::Index(0),
            SliceType::Index(0)
        ]),
        Err(Error::InvalidSlice)
    );
}

#[test]
fn out_of_range_or_shapeless_slices_are_refused() {
    let v = grid_variable();
    // coordinate beyond the dimension
    assert_eq!(
        v.slice(&vec![SliceType::Index(2), SliceType::All]),
        Err(Error::InvalidSlice)
    );
    // no whole dimension kept
    assert_eq!(
        v.slice(&vec![SliceType::Index(0), SliceType::Index(0)]),
        Err(Error::InvalidSlice)
    );
    // two whole dimensions kept
    assert_eq!(
        v.slice(&vec![SliceType::All, SliceType::All]),
        Err(Error::InvalidSlice)
    );
}

#[test]
fn missing_dimension_is_dimension_mismatch() {
    let order = vec![Dimension::new("time", 5)];
    match VarView::try_new(grid_variable(), order) {
        Err(Error::DimensionMismatch) => {}
        _ => panic!("a native dimension absent from the order must be refused"),
    }
    // a size mismatch is a mismatch too: equality is by name and size
    let order = vec![Dimension::new("time", 5), Dimension::new("x", 3)];
    assert!(VarView::try_new(grid_variable(), order).is_err());
}

#[test]
fn grid_cell_enumeration_order() {
    let cells = enumerate_cells(&vec![2, 3]);
    assert_eq!(
        cells,
        vec![
            vec![0, 0],
            vec![0, 1],
            vec![0, 2],
            vec![1, 0],
            vec![1, 1],
            vec![1, 2]
        ]
    );
}

#[test]
fn spatial_partition_excludes_the_temporal_dimension() {
    let dims = vec![
        Dimension::new("x", 2),
        Dimension::new("time", 5),
        Dimension::new("y", 3),
    ];
    let (spatial, positions) = spatial_dimensions(&dims, "time");
    assert_eq!(positions, vec![0, 2]);
    assert_eq!(spatial.len(), 2);
    assert_eq!(spatial[0].name(), "x");
    assert_eq!(spatial[1].name(), "y");
}

fn template() -> DailyData {
    DailyData {
        irrigation: Series::from_vec(vec![0, 10]),
        energy_flux: Series::from_vec(vec![51, 52]),
        temp_max: Series::from_vec(vec![200, 201]),
        temp_min: Series::from_vec(vec![44, 45]),
        rainfall: Series::from_vec(vec![239, 240]),
        photosynthetic_energy_flux: Series::from_vec(vec![107, 108]),
    }
}

#[test]
fn materialize_substitutes_scaled_driver_series() {
    let v = grid_variable();
    let yearly = YearlyData::default();
    let daily = template();
    let config = materialize_cell(&daily, &yearly, &v, &vec![0], &vec![1]).unwrap();
    // cell x=1: driver series 5..10, scaled a hundredfold
    assert_eq!(config.daily.rainfall.to_vec(), vec![500, 600, 700, 800, 900]);
    // every other series is the template's
    assert_eq!(config.daily.irrigation.to_vec(), vec![0, 10]);
    assert_eq!(config.daily.temp_max.to_vec(), vec![200, 201]);
    assert_eq!(config.yearly, yearly);
}

#[test]
fn oversized_driver_sample_is_malformed() {
    let v = InMemoryVariable {
        name: String::from("surface_water__depth"),
        dims: vec![Dimension::new("x", 1), Dimension::new("time", 1)],
        data: vec![i64::MAX / 100 + 1],
    };
    let r = materialize_cell(&template(), &YearlyData::default(), &v, &vec![0], &vec![0]);
    assert_eq!(r.err(), Some(Error::MalformedRecord));
}

#[test]
fn cells_processed_in_either_order_agree() {
    let v = grid_variable();
    let yearly = YearlyData::default();
    let daily = template();
    let cells = enumerate_cells(&vec![2]);

    // strict sequential order
    let mut first: Vec<Vec<i64>> = Vec::new();
    for c in &cells {
        let cfg = materialize_cell(&daily, &yearly, &v, &vec![0], c).unwrap();
        first.push(cfg.daily.rainfall.to_vec());
    }
    // reversed completion order, as under a concurrent pool
    let mut second: Vec<Vec<i64>> = vec![Vec::new(); cells.len()];
    for (i, c) in cells.iter().enumerate().rev() {
        let cfg = materialize_cell(&daily, &yearly, &v, &vec![0], c).unwrap();
        second[i] = cfg.daily.rainfall.to_vec();
    }
    assert_eq!(first, second);
}
