use std::io::Cursor;
use std::sync::Arc;

use penguin_dataset::convert::convert_features_to_matrix;
use penguin_dataset::pipeline::prepare_dataset;
use penguin_dataset::schema::penguin_schema;
use penguin_dataset::table::{Column, ColumnKind, Field, Table};

use polars::prelude::{
    CsvReadOptions, DataFrame, DataType, Field as FrameField, Schema, SerReader,
};
use smartcore::linalg::naive::dense_matrix::DenseMatrix;
use smartcore::linalg::BaseMatrix;

fn read_frame(text: &str, schema: &[Field]) -> DataFrame {
    let frame_schema = Schema::from_iter(schema.iter().map(|field| {
        let dtype = match field.kind {
            ColumnKind::Text => DataType::String,
            ColumnKind::Number => DataType::Float64,
        };
        FrameField::new(field.name.as_str().into(), dtype)
    }));
    CsvReadOptions::default()
        .with_schema(Some(Arc::new(frame_schema)))
        .with_has_header(true)
        .with_ignore_errors(true)
        .into_reader_with_file_handle(Cursor::new(text.as_bytes().to_vec()))
        .finish()
        .unwrap()
}

fn cells_of(table: &Table<f64>) -> Vec<(Vec<Option<String>>, Vec<Option<f64>>)> {
    (0..table.width())
        .map(|c| match table.column(c).unwrap() {
            Column::Text(cells) => (cells.clone(), Vec::new()),
            Column::Number(cells) => (Vec::new(), cells.clone()),
        })
        .collect()
}

fn frame_to_table(df: &DataFrame, schema: &[Field]) -> Table<f64> {
    let mut names: Vec<String> = Vec::new();
    let mut columns: Vec<Column<f64>> = Vec::new();
    for field in schema {
        let column = df.column(field.name.as_str()).unwrap();
        names.push(field.name.clone());
        columns.push(match field.kind {
            ColumnKind::Text => Column::Text(
                column
                    .str()
                    .unwrap()
                    .into_iter()
                    .map(|cell| cell.map(|text| text.to_string()))
                    .collect(),
            ),
            ColumnKind::Number => Column::Number(column.f64().unwrap().into_iter().collect()),
        });
    }
    Table::new(names, columns).unwrap()
}

const TEN_LINES: &str = "species,island,culmen_length_mm,culmen_depth_mm,flipper_length_mm,body_mass_g,sex
Adelie,Torgersen,39.1,18.7,181,3750,MALE
Adelie,Torgersen,39.5,17.4,186,3800,FEMALE
Adelie,Torgersen,40.3,18,195,,FEMALE
Chinstrap,Dream,46.5,17.9,192,3500,FEMALE
Chinstrap,Dream,50,19.5,196,3900,MALE
Gentoo,Biscoe,46.1,13.2,211,4500,FEMALE
Gentoo,Biscoe,50,16.3,230,5700,MALE
Gentoo,Biscoe,48.7,14.1,210,,FEMALE
Adelie,Dream,37.2,18.1,178,3900,MALE
Chinstrap,Dream,51.3,19.2,193,3650,MALE
";

#[test]
fn a_loaded_frame_becomes_a_table_of_the_schema() {
    let schema = penguin_schema();
    let df = read_frame(TEN_LINES, &schema);
    let table = frame_to_table(&df, &schema);
    assert_eq!((table.height(), table.width()), (10, 7));
    assert!(table.conforms_to(&schema));
    match table.column(5).unwrap() {
        Column::Number(cells) => {
            assert_eq!(cells[0], Some(3750.0));
            assert_eq!(cells[2], None);
            assert_eq!(cells[7], None);
            assert_eq!(cells[9], Some(3650.0));
        }
        Column::Text(_) => panic!("the body mass was loaded as text"),
    }
}

#[test]
fn ten_loaded_rows_with_two_incomplete_give_eight() {
    let schema = penguin_schema();
    let df = read_frame(TEN_LINES, &schema);
    let table = frame_to_table(&df, &schema);
    assert_eq!(table.drop_nulls().height(), 8);
    let dataset = prepare_dataset(&table).unwrap();
    assert_eq!(dataset.features.shape(), (8, 4));
    assert_eq!(dataset.labels, vec![1, 1, 2, 2, 3, 3, 1, 2]);
    let wide: Vec<f64> = dataset.labels.iter().map(|code| *code as f64).collect();
    assert!(wide.iter().all(|code| *code == 1.0 || *code == 2.0 || *code == 3.0));
    let want: [[f64; 4]; 8] = [
        [39.1, 18.7, 181.0, 3750.0],
        [39.5, 17.4, 186.0, 3800.0],
        [46.5, 17.9, 192.0, 3500.0],
        [50.0, 19.5, 196.0, 3900.0],
        [46.1, 13.2, 211.0, 4500.0],
        [50.0, 16.3, 230.0, 5700.0],
        [37.2, 18.1, 178.0, 3900.0],
        [51.3, 19.2, 193.0, 3650.0],
    ];
    for r in 0..8 {
        for c in 0..4 {
            assert_eq!(dataset.features.get(r, c), Some(want[r][c]));
        }
    }
}

#[test]
fn a_field_that_does_not_parse_is_loaded_as_missing() {
    let schema = penguin_schema();
    let text = "species,island,culmen_length_mm,culmen_depth_mm,flipper_length_mm,body_mass_g,sex
Adelie,Torgersen,39.1,18.7,181,3750,MALE
Gentoo,Biscoe,long,13.2,211,4500,FEMALE
";
    let df = read_frame(text, &schema);
    let table = frame_to_table(&df, &schema);
    assert_eq!(table.height(), 2);
    match table.column(2).unwrap() {
        Column::Number(cells) => assert_eq!(cells, &vec![Some(39.1), None]),
        Column::Text(_) => panic!("the culmen length was loaded as text"),
    }
    let dataset = prepare_dataset(&table).unwrap();
    assert_eq!(dataset.labels, vec![1]);
    assert_eq!(dataset.features.shape(), (1, 4));
}

#[test]
fn the_regression_matrix_reads_back_what_the_table_holds() {
    let columns: Vec<Vec<Option<f64>>> = (0..4)
        .map(|c| (0..6).map(|r| Some((100 * r + c) as f64 + 0.5)).collect())
        .collect();
    let names: Vec<String> = (0..4).map(|c| format!("c{}", c)).collect();
    let table: Table<f64> = Table::new(
        names,
        columns.iter().map(|cells| Column::Number(cells.clone())).collect(),
    )
    .unwrap();
    let matrix = convert_features_to_matrix(&table).unwrap();
    let (nrows, ncols) = matrix.shape();
    let dense = DenseMatrix::from_array(nrows, ncols, &matrix.values());
    assert_eq!(dense.shape(), (6, 4));
    for r in 0..6 {
        for c in 0..4 {
            assert_eq!(Some(dense.get(r, c)), columns[c][r]);
        }
    }
}

#[test]
fn the_row_filter_keeps_the_rows_that_the_frame_keeps() {
    let schema = penguin_schema();
    let df = read_frame(TEN_LINES, &schema);
    let by_frame = frame_to_table(&df.drop_nulls::<String>(None).unwrap(), &schema);
    let by_table = frame_to_table(&df, &schema).drop_nulls();
    assert_eq!(by_table.height(), by_frame.height());
    assert_eq!(cells_of(&by_table), cells_of(&by_frame));
}

#[test]
fn the_projection_takes_the_columns_that_the_frame_takes() {
    let schema = penguin_schema();
    let df = read_frame(TEN_LINES, &schema);
    let wanted = ["culmen_length_mm", "culmen_depth_mm", "flipper_length_mm", "body_mass_g"];
    let fields: Vec<Field> = wanted
        .iter()
        .map(|name| Field { name: name.to_string(), kind: ColumnKind::Number })
        .collect();
    let by_frame = frame_to_table(&df.select(wanted).unwrap(), &fields);
    let names: Vec<String> = wanted.iter().map(|name| name.to_string()).collect();
    let by_table = frame_to_table(&df, &schema).select(&names).unwrap();
    assert!(by_table.conforms_to(&fields));
    assert_eq!(cells_of(&by_table), cells_of(&by_frame));
    assert!(df.select(["nowhere"]).is_err());
    assert!(frame_to_table(&df, &schema).select(&vec!["nowhere".to_string()]).is_err());
}
