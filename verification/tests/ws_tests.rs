use voice_service::ws::{document_expired, Cell, ClientMsg, CursorData, PersistedDocument, ServerMsg, Sheet, State, UserInfo};

fn sheet(number: u64, name: &str) -> Sheet {
    Sheet { number, name: name.to_string() }
}

fn cell(pos: (u32, u32, u32), t: &str, content: &str) -> Cell {
    Cell { position: pos, cell_type: t.to_string(), content: content.to_string() }
}

fn sheets_of(d: &PersistedDocument) -> Vec<(u64, String)> {
    d.sheets.iter().map(|s| (s.number, s.name.clone())).collect()
}

fn cells_of(d: &PersistedDocument) -> Vec<((u32, u32, u32), String, String)> {
    d.cells.iter().map(|c| (c.position, c.cell_type.clone(), c.content.clone())).collect()
}

#[test]
fn a_new_session_is_empty() {
    let st = State::default();
    let d = st.get_persist();
    assert!(d.sheets.is_empty() && d.cells.is_empty());
    let greet = st.initial_messages(7);
    assert_eq!(greet.len(), 1);
    assert!(matches!(greet[0], ServerMsg::Identity(7)));
}

#[test]
fn a_written_cell_reads_back() {
    let mut st = State::default();
    let r = st.apply_message(1, ClientMsg::WriteCell(cell((0, 1, 2), "text", "hello")));
    assert!(matches!(r, Some(ServerMsg::WriteCell { id: 1, .. })));
    assert_eq!(cells_of(&st.get_persist()), vec![((0, 1, 2), "text".to_string(), "hello".to_string())]);
}

#[test]
fn rewriting_a_cell_changes_only_its_content() {
    let mut st = State::default();
    st.apply_message(1, ClientMsg::WriteCell(cell((0, 1, 2), "text", "hello")));
    st.apply_message(2, ClientMsg::WriteCell(cell((0, 1, 2), "number", "42")));
    assert_eq!(cells_of(&st.get_persist()), vec![((0, 1, 2), "text".to_string(), "42".to_string())]);
}

#[test]
fn deleting_a_cell_removes_it_and_is_always_broadcast() {
    let mut st = State::default();
    st.apply_message(1, ClientMsg::WriteCell(cell((0, 0, 0), "t", "a")));
    st.apply_message(1, ClientMsg::WriteCell(cell((0, 0, 1), "t", "b")));
    let r = st.apply_message(1, ClientMsg::DeleteCell(CursorData { cursors: (0, 0, 0) }));
    assert!(matches!(r, Some(ServerMsg::DeleteCell { id: 1, .. })));
    assert_eq!(cells_of(&st.get_persist()), vec![((0, 0, 1), "t".to_string(), "b".to_string())]);
    let r = st.apply_message(1, ClientMsg::DeleteCell(CursorData { cursors: (9, 9, 9) }));
    assert!(matches!(r, Some(ServerMsg::DeleteCell { .. })));
    assert_eq!(st.get_persist().cells.len(), 1);
}

#[test]
fn sheets_are_created_renamed_and_deleted() {
    let mut st = State::default();
    let r = st.apply_message(3, ClientMsg::CreateSheet(sheet(1, "One")));
    assert!(matches!(r, Some(ServerMsg::CreateSheet { id: 3, .. })));
    st.apply_message(3, ClientMsg::CreateSheet(sheet(2, "Two")));
    let r = st.apply_message(3, ClientMsg::RenameSheet(sheet(2, "Deux")));
    assert!(matches!(r, Some(ServerMsg::RenameSheet { .. })));
    assert_eq!(sheets_of(&st.get_persist()), vec![(1, "One".to_string()), (2, "Deux".to_string())]);
    let r = st.apply_message(3, ClientMsg::DeleteSheet(sheet(1, "")));
    assert!(matches!(r, Some(ServerMsg::DeleteSheet { .. })));
    assert_eq!(sheets_of(&st.get_persist()), vec![(2, "Deux".to_string())]);
}

#[test]
fn unknown_sheets_are_ignored() {
    let mut st = State::default();
    st.apply_message(3, ClientMsg::CreateSheet(sheet(1, "One")));
    assert!(st.apply_message(3, ClientMsg::DeleteSheet(sheet(8, ""))).is_none());
    assert!(st.apply_message(3, ClientMsg::RenameSheet(sheet(8, "X"))).is_none());
    assert_eq!(sheets_of(&st.get_persist()), vec![(1, "One".to_string())]);
}

#[test]
fn a_duplicate_sheet_number_appends_another_sheet() {
    let mut st = State::default();
    st.apply_message(3, ClientMsg::CreateSheet(sheet(1, "One")));
    st.apply_message(3, ClientMsg::CreateSheet(sheet(1, "Again")));
    assert_eq!(sheets_of(&st.get_persist()), vec![(1, "One".to_string()), (1, "Again".to_string())]);
    st.apply_message(3, ClientMsg::RenameSheet(sheet(1, "Renamed")));
    assert_eq!(sheets_of(&st.get_persist()), vec![(1, "One".to_string()), (1, "Renamed".to_string())]);
}

#[test]
fn a_persisted_document_loads_back() {
    let doc = PersistedDocument {
        sheets: vec![sheet(1, "One"), sheet(2, "Two")],
        cells: vec![cell((1, 0, 0), "t", "x"), cell((2, 3, 4), "n", "5")],
    };
    let mut st = State::default();
    st.set_persist(&doc);
    let back = st.get_persist();
    assert_eq!(sheets_of(&back), sheets_of(&doc));
    assert_eq!(cells_of(&back), cells_of(&doc));
    st.apply_message(1, ClientMsg::WriteCell(cell((2, 3, 4), "t", "6")));
    assert_eq!(cells_of(&st.get_persist())[1], ((2, 3, 4), "n".to_string(), "6".to_string()));
}

#[test]
fn users_and_cursors_are_greeted_and_forgotten() {
    let mut st = State::default();
    let info = UserInfo { name: "Ann".to_string(), user_id: "u1".to_string(), hue: 120 };
    let r = st.apply_message(4, ClientMsg::ClientInfo(info));
    assert!(matches!(r, Some(ServerMsg::UserInfo { id: 4, info: Some(_) })));
    st.apply_message(4, ClientMsg::CursorData(CursorData { cursors: (1, 2, 3) }));
    st.apply_message(4, ClientMsg::CreateSheet(sheet(1, "One")));
    st.apply_message(4, ClientMsg::WriteCell(cell((1, 0, 0), "t", "x")));
    let greet = st.initial_messages(9);
    assert_eq!(greet.len(), 5);
    assert!(matches!(greet[0], ServerMsg::Identity(9)));
    match &greet[1] {
        ServerMsg::UserInfo { id: 4, info: Some(u) } => assert_eq!(u.name, "Ann"),
        _ => panic!("expected the user"),
    }
    assert!(matches!(greet[2], ServerMsg::UserCursor { id: 4, data: CursorData { cursors: (1, 2, 3) } }));
    assert!(matches!(greet[3], ServerMsg::GetSheet { .. }));
    assert!(matches!(greet[4], ServerMsg::GetCell { .. }));
    let bye = st.disconnect(4);
    assert!(matches!(bye, ServerMsg::UserInfo { id: 4, info: None }));
    assert_eq!(st.initial_messages(9).len(), 3);
}

#[test]
fn room_for_more_ids() {
    let st = State::default();
    assert!(st.has_room_for(10));
}

#[test]
fn documents_expire_only_after_the_keep_time() {
    assert!(!document_expired(86_400, 0, 1));
    assert!(document_expired(86_400, 1, 1));
    assert!(document_expired(86_401, 0, 1));
    assert!(!document_expired(3_600, 999_999_999, 1));
    assert!(!document_expired(172_799, 0, 2));
    assert!(document_expired(0, 1, 0));
}

#[test]
fn creating_then_deleting_a_sheet_restores_the_list() {
    let mut st = State::default();
    st.apply_message(1, ClientMsg::CreateSheet(sheet(1, "One")));
    let before = sheets_of(&st.get_persist());
    st.apply_message(2, ClientMsg::CreateSheet(sheet(7, "Seven")));
    let r = st.apply_message(2, ClientMsg::DeleteSheet(sheet(7, "Seven")));
    assert!(matches!(r, Some(ServerMsg::DeleteSheet { id: 2, .. })));
    assert_eq!(sheets_of(&st.get_persist()), before);
}
