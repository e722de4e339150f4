use zombie_policy_core::csv::{
    column_index, feature_indices, parse_bool_cell, parse_csv_line, plan_transitions,
    required_column, split_lines, transition_columns, CsvError, RowOutcome,
};
use zombie_policy_core::PLAYER_FEATURE_NAMES;

fn strings(items: &[&str]) -> Vec<String> {
    items.iter().map(|s| s.to_string()).collect()
}

#[test]
fn csv_cells_split_at_unquoted_commas() {
    assert_eq!(parse_csv_line("a,b,c"), strings(&["a", "b", "c"]));
    assert_eq!(parse_csv_line(""), strings(&[""]));
    assert_eq!(parse_csv_line(",,"), strings(&["", "", ""]));
    assert_eq!(parse_csv_line("\"x,y\",z"), strings(&["x,y", "z"]));
    assert_eq!(parse_csv_line("\"say \"\"hi\"\"\",2"), strings(&["say \"hi\"", "2"]));
    assert_eq!(parse_csv_line("a\"b\"c"), strings(&["abc"]));
    assert_eq!(parse_csv_line("\"open,never closed"), strings(&["open,never closed"]));
    assert_eq!(parse_csv_line("é,ü"), strings(&["é", "ü"]));
}

#[test]
fn joined_plain_cells_parse_back() {
    let cells = strings(&["action_id", "reward", "", "prev_x"]);
    assert_eq!(parse_csv_line(&cells.join(",")), cells);
}

#[test]
fn lines_split_like_str_lines() {
    let text = "a\r\nb\n\nc\r";
    assert_eq!(split_lines(text), text.lines().map(|l| l.to_string()).collect::<Vec<_>>());
    assert_eq!(split_lines("x\n"), strings(&["x"]));
    assert_eq!(split_lines(""), Vec::<String>::new());
    assert_eq!(split_lines("\n"), strings(&[""]));
}

#[test]
fn later_duplicate_header_wins() {
    let headers = strings(&["a", "b", "a"]);
    assert_eq!(column_index(&headers, "a"), Some(2));
    assert_eq!(column_index(&headers, "b"), Some(1));
    assert_eq!(column_index(&headers, "c"), None);
    assert_eq!(required_column(&headers, "a").unwrap(), 2);
    match required_column(&headers, "done") {
        Err(CsvError::MissingColumn { name }) => assert_eq!(name, "done"),
        other => panic!("unexpected {other:?}"),
    }
}

#[test]
fn feature_columns_report_first_missing() {
    let headers = strings(&["prev_x", "prev_y", "next_x"]);
    assert_eq!(feature_indices(&headers, "prev_", &["y", "x"]).unwrap(), vec![1, 0]);
    match feature_indices(&headers, "next_", &["x", "y", "z"]) {
        Err(CsvError::MissingFeatureColumn { column }) => assert_eq!(column, "next_y"),
        other => panic!("unexpected {other:?}"),
    }
}

#[test]
fn bool_cells_read_one_true_yes() {
    assert!(parse_bool_cell("1"));
    assert!(parse_bool_cell(" TRUE "));
    assert!(parse_bool_cell("Yes"));
    assert!(parse_bool_cell("\ttrue\u{3000}"));
    assert!(!parse_bool_cell("0"));
    assert!(!parse_bool_cell("false"));
    assert!(!parse_bool_cell("y"));
    assert!(!parse_bool_cell(""));
}

#[test]
fn transition_rows_are_decided() {
    let text = "action_id,reward,done,prev_f,next_f\n\
                2,0.5,true,1.0,2.0\n\
                \n\
                9,1,0,1,1\n\
                1,2\n\
                x,-1,no,3,4\r\n";
    let rows = plan_transitions(text, &["f"]).unwrap();
    assert_eq!(rows.len(), 4);
    match &rows[0] {
        RowOutcome::Accepted(t) => {
            assert_eq!(t.action, 2);
            assert_eq!(t.reward, "0.5");
            assert!(t.done);
            assert_eq!(t.state, strings(&["1.0"]));
            assert_eq!(t.next_state, strings(&["2.0"]));
        }
        other => panic!("unexpected {other:?}"),
    }
    match &rows[1] {
        RowOutcome::InvalidAction { line_number, action } => {
            assert_eq!(*line_number, 2);
            assert_eq!(*action, 9);
        }
        other => panic!("unexpected {other:?}"),
    }
    match &rows[2] {
        RowOutcome::ShortRow { line_number } => assert_eq!(*line_number, 3),
        other => panic!("unexpected {other:?}"),
    }
    match &rows[3] {
        RowOutcome::Accepted(t) => {
            assert_eq!(t.action, 0);
            assert!(!t.done);
            assert_eq!(t.next_state, strings(&["4"]));
        }
        other => panic!("unexpected {other:?}"),
    }
}

#[test]
fn transition_header_errors() {
    assert!(plan_transitions("", &["f"]).unwrap().is_empty());
    match plan_transitions("reward,done\n1,1", &["f"]) {
        Err(CsvError::MissingColumn { name }) => assert_eq!(name, "action_id"),
        other => panic!("unexpected {other:?}"),
    }
    match plan_transitions("action_id,reward,done,prev_f,next_g\n", &["f"]) {
        Err(CsvError::MissingFeatureColumn { column }) => assert_eq!(column, "next_f"),
        other => panic!("unexpected {other:?}"),
    }
}

#[test]
fn canonical_header_columns_are_in_order() {
    let mut header = strings(&["action_id", "reward", "done"]);
    header.extend(PLAYER_FEATURE_NAMES.iter().map(|n| format!("prev_{n}")));
    header.extend(PLAYER_FEATURE_NAMES.iter().map(|n| format!("next_{n}")));
    let cols = transition_columns(&header, &PLAYER_FEATURE_NAMES).unwrap();
    assert_eq!((cols.action, cols.reward, cols.done), (0, 1, 2));
    assert_eq!(cols.prev, (3..18).collect::<Vec<_>>());
    assert_eq!(cols.next, (18..33).collect::<Vec<_>>());

    let mut text = header.join(",");
    text.push('\n');
    let values = (0..33).map(|i| if i == 0 { "4".to_string() } else { format!("{i}") });
    text.push_str(&values.collect::<Vec<_>>().join(","));
    let rows = plan_transitions(&text, &PLAYER_FEATURE_NAMES).unwrap();
    match &rows[..] {
        [RowOutcome::Accepted(t)] => {
            assert_eq!(t.action, 4);
            assert_eq!(t.state.len(), 15);
            assert_eq!(t.next_state[14], "32");
            assert!(!t.done);
        }
        other => panic!("unexpected {other:?}"),
    }
}

#[test]
fn report_rows_give_score_and_episode() {
    let header = "episode,phase,a,b,c,d,e,f,g,eval_score,zp,pp,best_episode,dt,max_steps";
    let text = format!(
        "{header}\n500,self,1,1,0.5,6,1,0.3,0.2,41.5,1900,2084,500,0.2,300\nshort,row\n1000,self,1,1,0.5,6,1,0.3,0.2,39.0,1900,2084,500,0.2,300\n"
    );
    let rows = zombie_policy_core::csv::report_candidates(&text).unwrap();
    assert_eq!(rows, vec![("41.5".to_string(), 500), ("39.0".to_string(), 500)]);
    let bad = format!("{header}\n1,2,3,4,5,6,7,8,9,10,11,12,x\n");
    assert!(zombie_policy_core::csv::report_candidates(&bad).is_none());
    assert_eq!(zombie_policy_core::csv::report_candidates("").unwrap(), vec![]);
    assert_eq!(
        zombie_policy_core::csv::split_commas("a,,b"),
        vec!["a".to_string(), String::new(), "b".to_string()]
    );
}
