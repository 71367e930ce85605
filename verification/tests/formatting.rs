use gmt_lom::Formatting;

fn values() -> Vec<f64> {
    (0..84).map(|i| 0.4 + 13.7 * i as f64).collect()
}

/// The tables as the format strings of the standard library write them.
fn expected(format: Formatting, values: &[f64]) -> String {
    let mut text = String::new();
    for (i, var) in values.chunks(42).enumerate() {
        match format {
            Formatting::AdHoc => {
                text += &format!("M{:} RBM [Txyz[nm]]  [Rxyz[mas]] STD :\n", i + 1);
                for (j, var) in var.chunks(6).enumerate() {
                    let t_xyz: Vec<_> = var[..3].to_vec();
                    let r_xyz: Vec<_> = var[3..].to_vec();
                    text += &format!(" - #{:} {:6.0?} {:6.0?}\n", j + 1, t_xyz, r_xyz);
                }
            }
            Formatting::Latex => {
                text += &format!(
                    "\\begin{{tabular}}{{ccccccc}}
M{:} & \\multicolumn{{3}}{{c}}{{Txyz[nm]}} & \\multicolumn{{3}}{{c}}{{Rxyz[mas]}} \\\\\n",
                    i + 1
                );
                for (j, var) in var.chunks(6).enumerate() {
                    let t_xyz: Vec<_> = var[..3].iter().map(|x| format!("{:6.0}", x)).collect();
                    let r_xyz: Vec<_> = var[3..].iter().map(|x| format!("{:6.0}", x)).collect();
                    text += &format!(
                        " {:} &  {:} & {:} \\\\\n",
                        j + 1,
                        t_xyz.join(" & "),
                        r_xyz.join(" & ")
                    );
                }
                text += "\\end{tabular}\n";
            }
        }
    }
    text
}

#[test]
fn adhoc_table_lists_the_segments() {
    let values = values();
    let cells: Vec<String> = values.iter().map(|x| format!("{:6.0?}", x)).collect();
    let table = Formatting::AdHoc.table(&cells).unwrap();
    assert_eq!(table, expected(Formatting::AdHoc, &values));
    assert!(table.starts_with("M1 RBM [Txyz[nm]]  [Rxyz[mas]] STD :\n - #1 [     0,     14,     28] [    41,     55,     69]\n"));
    assert_eq!(table.lines().count(), 16);
}

#[test]
fn latex_table_has_a_row_to_the_segment() {
    let values = values();
    let cells: Vec<String> = values.iter().map(|x| format!("{:6.0}", x)).collect();
    let table = Formatting::Latex.table(&cells).unwrap();
    assert_eq!(table, expected(Formatting::Latex, &values));
    assert!(table.contains(
        "M2 & \\multicolumn{3}{c}{Txyz[nm]} & \\multicolumn{3}{c}{Rxyz[mas]} \\\\\n 1 &     576 &    590 &    603 &    617 &    631 &    644 \\\\\n"
    ));
    assert!(table.ends_with("\\end{tabular}\n"));
    assert_eq!(table.lines().count(), 20);
}

#[test]
fn a_table_has_84_cells() {
    let cells: Vec<String> = vec!["x".to_string(); 83];
    assert_eq!(Formatting::AdHoc.table(&cells), None);
    assert_eq!(Formatting::Latex.table(&[]), None);
    let cells: Vec<String> = vec!["x".to_string(); 85];
    assert_eq!(Formatting::Latex.table(&cells), None);
}
