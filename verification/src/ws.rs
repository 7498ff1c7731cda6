use vstd::prelude::*;

use crate::assoc::{distinct_keys, has_key, insert, insert_exec, lookup, remove, remove_exec, find};

verus! {

/// A sheet of a collaborative spreadsheet document.
pub struct Sheet {
    pub number: u64,
    pub name: String,
}

/// A cell, at (sheet, row, column).
pub struct Cell {
    pub position: (u32, u32, u32),
    pub cell_type: String,
    pub content: String,
}

/// A sheet as the shared state keeps it.
pub struct SheetInfo {
    pub number: u64,
    pub name: String,
}

/// A cell as the shared state keeps it.
pub struct CellInfo {
    pub position: (u32, u32, u32),
    pub cell_type: String,
    pub content: String,
}

/// A document as it is persisted in storage.
pub struct PersistedDocument {
    pub sheets: Vec<Sheet>,
    pub cells: Vec<Cell>,
}

/// Statistics about the server.
pub struct Stats {
    /// System time when the server started, in seconds since the Unix epoch.
    pub start_time: u64,
    /// Number of documents currently tracked by the server.
    pub num_documents: usize,
}

/// What a connected user tells about themselves.
pub struct UserInfo {
    pub name: String,
    pub user_id: String,
    pub hue: u32,
}

/// A user's cursor position.
pub struct CursorData {
    pub cursors: (u32, u32, u32),
}

/// A message received from a client over the socket.
pub enum ClientMsg {
    ClientInfo(UserInfo),
    CursorData(CursorData),
    CreateSheet(Sheet),
    DeleteSheet(Sheet),
    RenameSheet(Sheet),
    WriteCell(Cell),
    DeleteCell(CursorData),
}

/// A message sent to clients over the socket.
pub enum ServerMsg {
    /// Informs the client of their unique socket id.
    Identity(u64),
    /// A user's information, or `None` on disconnect.
    UserInfo { id: u64, info: Option<UserInfo> },
    /// A user's cursor position.
    UserCursor { id: u64, data: CursorData },
    CreateSheet { id: u64, sheet: Sheet },
    DeleteSheet { id: u64, sheet: Sheet },
    RenameSheet { id: u64, sheet: Sheet },
    GetSheet { sheet: Sheet },
    WriteCell { id: u64, cell: Cell },
    DeleteCell { id: u64, cursor: CursorData },
    GetCell { cell: Cell },
}

impl Clone for Sheet {
    fn clone(&self) -> (r: Self)
        ensures
            r == *self,
    {
        Sheet { number: self.number, name: self.name.clone() }
    }
}

impl Clone for Cell {
    fn clone(&self) -> (r: Self)
        ensures
            r == *self,
    {
        Cell {
            position: self.position,
            cell_type: self.cell_type.clone(),
            content: self.content.clone(),
        }
    }
}

impl Clone for UserInfo {
    fn clone(&self) -> (r: Self)
        ensures
            r == *self,
    {
        UserInfo { name: self.name.clone(), user_id: self.user_id.clone(), hue: self.hue }
    }
}

impl Clone for CursorData {
    fn clone(&self) -> (r: Self)
        ensures
            r == *self,
    {
        CursorData { cursors: self.cursors }
    }
}

/// The shared state of a session, as mathematical sequences: the sheet and
/// cell lists in order, each item with its internal id; the indexes from sheet
/// number and from cell position to those ids; the users and cursors by socket
/// id; and the next internal id to hand out.
pub struct StateModel {
    pub sheets: Seq<(u64, SheetInfo)>,
    pub cells: Seq<(u64, CellInfo)>,
    pub sheets_ids: Seq<(u64, u64)>,
    pub cell_ids: Seq<((u32, u32, u32), u64)>,
    pub users: Seq<(u64, UserInfo)>,
    pub cursors: Seq<(u64, CursorData)>,
    pub next_id: u64,
}

/// What every reachable state satisfies: no key twice in any table, all
/// internal ids below `next_id`, and every index entry pointing at an item of
/// its list that has the indexed sheet number or cell position.
pub open spec fn wf(m: StateModel) -> bool {
    &&& distinct_keys(m.sheets)
    &&& distinct_keys(m.cells)
    &&& distinct_keys(m.sheets_ids)
    &&& distinct_keys(m.cell_ids)
    &&& distinct_keys(m.users)
    &&& distinct_keys(m.cursors)
    &&& forall|sid: u64| #[trigger] has_key(m.sheets, sid) ==> sid < m.next_id
    &&& forall|cid: u64| #[trigger] has_key(m.cells, cid) ==> cid < m.next_id
    &&& forall|num: u64|
        #[trigger] has_key(m.sheets_ids, num) ==> {
            &&& has_key(m.sheets, lookup(m.sheets_ids, num).unwrap())
            &&& lookup(m.sheets, lookup(m.sheets_ids, num).unwrap()).unwrap().number == num
        }
    &&& forall|pos: (u32, u32, u32)|
        #[trigger] has_key(m.cell_ids, pos) ==> {
            &&& has_key(m.cells, lookup(m.cell_ids, pos).unwrap())
            &&& lookup(m.cells, lookup(m.cell_ids, pos).unwrap()).unwrap().position == pos
        }
}

/// The empty session.
pub open spec fn empty_model() -> StateModel {
    StateModel {
        sheets: Seq::empty(),
        cells: Seq::empty(),
        sheets_ids: Seq::empty(),
        cell_ids: Seq::empty(),
        users: Seq::empty(),
        cursors: Seq::empty(),
        next_id: 0,
    }
}

/// Renames the sheet with internal id `sid`, where there is one.
pub open spec fn rename_item(s: Seq<(u64, SheetInfo)>, sid: u64, name: String) -> Seq<(u64, SheetInfo)> {
    match lookup(s, sid) {
        Some(info) => insert(s, sid, SheetInfo { number: info.number, name: name }),
        None => s,
    }
}

/// Replaces the content of the cell with internal id `cid`, where there is one;
/// its type stays as it was.
pub open spec fn set_content_item(s: Seq<(u64, CellInfo)>, cid: u64, content: String) -> Seq<(u64, CellInfo)> {
    match lookup(s, cid) {
        Some(info) => insert(
            s,
            cid,
            CellInfo { position: info.position, cell_type: info.cell_type, content: content },
        ),
        None => s,
    }
}

/// Appends a sheet under a fresh id and indexes its number.
pub open spec fn add_sheet(m: StateModel, sheet: Sheet) -> StateModel {
    StateModel {
        sheets: m.sheets.push((m.next_id, SheetInfo { number: sheet.number, name: sheet.name })),
        sheets_ids: insert(m.sheets_ids, sheet.number, m.next_id),
        next_id: (m.next_id + 1) as u64,
        ..m
    }
}

/// Appends a cell under a fresh id and indexes its position.
pub open spec fn add_cell(m: StateModel, cell: Cell) -> StateModel {
    StateModel {
        cells: m.cells.push(
            (
                m.next_id,
                CellInfo {
                    position: cell.position,
                    cell_type: cell.cell_type,
                    content: cell.content,
                },
            ),
        ),
        cell_ids: insert(m.cell_ids, cell.position, m.next_id),
        next_id: (m.next_id + 1) as u64,
        ..m
    }
}

/// What one message from the client with socket id `id` does to the session,
/// and what is broadcast in answer. Creating a sheet always appends one;
/// deleting or renaming a sheet acts, and is broadcast, only where the number
/// is indexed. Writing a cell replaces the content of the indexed cell at that
/// position (its type stays) or appends a new cell; deleting a cell drops the
/// indexed one; both are always broadcast.
pub open spec fn step(m: StateModel, id: u64, msg: ClientMsg) -> (StateModel, Option<ServerMsg>) {
    match msg {
        ClientMsg::ClientInfo(info) => (
            StateModel { users: insert(m.users, id, info), ..m },
            Some(ServerMsg::UserInfo { id, info: Some(info) }),
        ),
        ClientMsg::CursorData(data) => (
            StateModel { cursors: insert(m.cursors, id, data), ..m },
            Some(ServerMsg::UserCursor { id, data }),
        ),
        ClientMsg::CreateSheet(sheet) => (add_sheet(m, sheet), Some(ServerMsg::CreateSheet { id, sheet })),
        ClientMsg::DeleteSheet(sheet) => match lookup(m.sheets_ids, sheet.number) {
            Some(sid) => (
                StateModel {
                    sheets: remove(m.sheets, sid),
                    sheets_ids: remove(m.sheets_ids, sheet.number),
                    ..m
                },
                Some(ServerMsg::DeleteSheet { id, sheet }),
            ),
            None => (m, None),
        },
        ClientMsg::RenameSheet(sheet) => match lookup(m.sheets_ids, sheet.number) {
            Some(sid) => (
                StateModel { sheets: rename_item(m.sheets, sid, sheet.name), ..m },
                Some(ServerMsg::RenameSheet { id, sheet }),
            ),
            None => (m, None),
        },
        ClientMsg::WriteCell(cell) => match lookup(m.cell_ids, cell.position) {
            Some(cid) => (
                StateModel { cells: set_content_item(m.cells, cid, cell.content), ..m },
                Some(ServerMsg::WriteCell { id, cell }),
            ),
            None => (add_cell(m, cell), Some(ServerMsg::WriteCell { id, cell })),
        },
        ClientMsg::DeleteCell(cursor) => match lookup(m.cell_ids, cursor.cursors) {
            Some(cid) => (
                StateModel {
                    cells: remove(m.cells, cid),
                    cell_ids: remove(m.cell_ids, cursor.cursors),
                    ..m
                },
                Some(ServerMsg::DeleteCell { id, cursor }),
            ),
            None => (m, Some(ServerMsg::DeleteCell { id, cursor })),
        },
    }
}



proof fn lemma_has_key_lookup<K, V>(s: Seq<(K, V)>)
    ensures
        forall|k: K| #[trigger] has_key(s, k) == (lookup(s, k) is Some),
{
}

/// Appending under a fresh id keeps a well-formed session well formed.
proof fn lemma_add_sheet_wf(m: StateModel, sheet: Sheet)
    requires
        wf(m),
        m.next_id < u64::MAX,
    ensures
        wf(add_sheet(m, sheet)),
{
    let m2 = add_sheet(m, sheet);
    let item = SheetInfo { number: sheet.number, name: sheet.name };
    assert(!has_key(m.sheets, m.next_id));
    crate::assoc::lemma_insert(m.sheets, m.next_id, item);
    crate::assoc::lemma_insert(m.sheets_ids, sheet.number, m.next_id);
    lemma_has_key_lookup(m.sheets);
    lemma_has_key_lookup(m2.sheets);
    lemma_has_key_lookup(m.sheets_ids);
    lemma_has_key_lookup(m2.sheets_ids);
    assert(m2.sheets == insert(m.sheets, m.next_id, item));
    assert forall|x: u64| #[trigger] has_key(m2.sheets, x) implies x < m2.next_id by {
        if x != m.next_id {
            assert(has_key(m.sheets, x));
        }
    }
    assert forall|num: u64| #[trigger] has_key(m2.sheets_ids, num) implies {
        &&& has_key(m2.sheets, lookup(m2.sheets_ids, num).unwrap())
        &&& lookup(m2.sheets, lookup(m2.sheets_ids, num).unwrap()).unwrap().number == num
    } by {
        if num != sheet.number {
            assert(has_key(m.sheets_ids, num));
            let sid = lookup(m.sheets_ids, num).unwrap();
            assert(has_key(m.sheets, sid));
            assert(sid != m.next_id);
        }
    }
}

/// Appending a cell under a fresh id keeps a well-formed session well formed.
proof fn lemma_add_cell_wf(m: StateModel, cell: Cell)
    requires
        wf(m),
        m.next_id < u64::MAX,
    ensures
        wf(add_cell(m, cell)),
{
    let m2 = add_cell(m, cell);
    let item = CellInfo { position: cell.position, cell_type: cell.cell_type, content: cell.content };
    assert(!has_key(m.cells, m.next_id));
    crate::assoc::lemma_insert(m.cells, m.next_id, item);
    crate::assoc::lemma_insert(m.cell_ids, cell.position, m.next_id);
    lemma_has_key_lookup(m.cells);
    lemma_has_key_lookup(m2.cells);
    lemma_has_key_lookup(m.cell_ids);
    lemma_has_key_lookup(m2.cell_ids);
    assert(m2.cells == insert(m.cells, m.next_id, item));
    assert forall|x: u64| #[trigger] has_key(m2.cells, x) implies x < m2.next_id by {
        if x != m.next_id {
            assert(has_key(m.cells, x));
        }
    }
    assert forall|pos: (u32, u32, u32)| #[trigger] has_key(m2.cell_ids, pos) implies {
        &&& has_key(m2.cells, lookup(m2.cell_ids, pos).unwrap())
        &&& lookup(m2.cells, lookup(m2.cell_ids, pos).unwrap()).unwrap().position == pos
    } by {
        if pos != cell.position {
            assert(has_key(m.cell_ids, pos));
            let cid = lookup(m.cell_ids, pos).unwrap();
            assert(has_key(m.cells, cid));
            assert(cid != m.next_id);
        }
    }
}

/// Every message keeps a well-formed session well formed.
pub proof fn lemma_step_wf(m: StateModel, id: u64, msg: ClientMsg)
    requires
        wf(m),
        m.next_id < u64::MAX,
    ensures
        wf(step(m, id, msg).0),
{
    let m2 = step(m, id, msg).0;
    lemma_has_key_lookup(m.sheets);
    lemma_has_key_lookup(m2.sheets);
    lemma_has_key_lookup(m.sheets_ids);
    lemma_has_key_lookup(m2.sheets_ids);
    lemma_has_key_lookup(m.cells);
    lemma_has_key_lookup(m2.cells);
    lemma_has_key_lookup(m.cell_ids);
    lemma_has_key_lookup(m2.cell_ids);
    match msg {
        ClientMsg::ClientInfo(info) => {
            crate::assoc::lemma_insert(m.users, id, info);
        },
        ClientMsg::CursorData(data) => {
            crate::assoc::lemma_insert(m.cursors, id, data);
        },
        ClientMsg::CreateSheet(sheet) => {
            lemma_add_sheet_wf(m, sheet);
        },
        ClientMsg::DeleteSheet(sheet) => {
            if has_key(m.sheets_ids, sheet.number) {
                let sid = lookup(m.sheets_ids, sheet.number).unwrap();
                crate::assoc::lemma_remove(m.sheets, sid);
                crate::assoc::lemma_remove(m.sheets_ids, sheet.number);
                assert forall|num: u64| #[trigger] has_key(m2.sheets_ids, num) implies {
                    &&& has_key(m2.sheets, lookup(m2.sheets_ids, num).unwrap())
                    &&& lookup(m2.sheets, lookup(m2.sheets_ids, num).unwrap()).unwrap().number == num
                } by {
                    assert(has_key(m.sheets_ids, num));
                    let sid2 = lookup(m.sheets_ids, num).unwrap();
                    assert(has_key(m.sheets, sid2));
                    assert(sid2 != sid);
                }
                assert forall|x: u64| #[trigger] has_key(m2.sheets, x) implies x < m2.next_id by {
                    assert(has_key(m.sheets, x));
                }
            }
        },
        ClientMsg::RenameSheet(sheet) => {
            if has_key(m.sheets_ids, sheet.number) {
                let sid = lookup(m.sheets_ids, sheet.number).unwrap();
                let info = lookup(m.sheets, sid).unwrap();
                crate::assoc::lemma_insert(m.sheets, sid, SheetInfo { number: info.number, name: sheet.name });
                assert forall|x: u64| #[trigger] has_key(m2.sheets, x) implies x < m2.next_id by {
                    assert(has_key(m.sheets, x));
                }
                assert forall|num: u64| #[trigger] has_key(m2.sheets_ids, num) implies {
                    &&& has_key(m2.sheets, lookup(m2.sheets_ids, num).unwrap())
                    &&& lookup(m2.sheets, lookup(m2.sheets_ids, num).unwrap()).unwrap().number == num
                } by {
                    let sid2 = lookup(m.sheets_ids, num).unwrap();
                    assert(has_key(m.sheets, sid2));
                }
            }
        },
        ClientMsg::WriteCell(cell) => {
            if has_key(m.cell_ids, cell.position) {
                let cid = lookup(m.cell_ids, cell.position).unwrap();
                let info = lookup(m.cells, cid).unwrap();
                crate::assoc::lemma_insert(
                    m.cells,
                    cid,
                    CellInfo { position: info.position, cell_type: info.cell_type, content: cell.content },
                );
                assert forall|x: u64| #[trigger] has_key(m2.cells, x) implies x < m2.next_id by {
                    assert(has_key(m.cells, x));
                }
                assert forall|pos: (u32, u32, u32)| #[trigger] has_key(m2.cell_ids, pos) implies {
                    &&& has_key(m2.cells, lookup(m2.cell_ids, pos).unwrap())
                    &&& lookup(m2.cells, lookup(m2.cell_ids, pos).unwrap()).unwrap().position == pos
                } by {
                    let cid2 = lookup(m.cell_ids, pos).unwrap();
                    assert(has_key(m.cells, cid2));
                }
            } else {
                lemma_add_cell_wf(m, cell);
            }
        },
        ClientMsg::DeleteCell(cursor) => {
            if has_key(m.cell_ids, cursor.cursors) {
                let cid = lookup(m.cell_ids, cursor.cursors).unwrap();
                crate::assoc::lemma_remove(m.cells, cid);
                crate::assoc::lemma_remove(m.cell_ids, cursor.cursors);
                assert forall|pos: (u32, u32, u32)| #[trigger] has_key(m2.cell_ids, pos) implies {
                    &&& has_key(m2.cells, lookup(m2.cell_ids, pos).unwrap())
                    &&& lookup(m2.cells, lookup(m2.cell_ids, pos).unwrap()).unwrap().position == pos
                } by {
                    assert(has_key(m.cell_ids, pos));
                    let cid2 = lookup(m.cell_ids, pos).unwrap();
                    assert(has_key(m.cells, cid2));
                    assert(cid2 != cid);
                }
                assert forall|x: u64| #[trigger] has_key(m2.cells, x) implies x < m2.next_id by {
                    assert(has_key(m.cells, x));
                }
            }
        },
    }
}


/// The sheets of a session as they are persisted, in list order.
pub open spec fn persist_sheets(s: Seq<(u64, SheetInfo)>) -> Seq<Sheet> {
    s.map_values(|p: (u64, SheetInfo)| Sheet { number: p.1.number, name: p.1.name })
}

/// The cells of a session as they are persisted, in list order.
pub open spec fn persist_cells(s: Seq<(u64, CellInfo)>) -> Seq<Cell> {
    s.map_values(
        |p: (u64, CellInfo)|
            Cell { position: p.1.position, cell_type: p.1.cell_type, content: p.1.content },
    )
}

/// Loading persisted sheets: each one appended as a created sheet, in order.
pub open spec fn load_sheets(m: StateModel, s: Seq<Sheet>) -> StateModel
    decreases s.len(),
{
    if s.len() == 0 {
        m
    } else {
        add_sheet(load_sheets(m, s.drop_last()), s.last())
    }
}

/// Loading persisted cells: each one appended and indexed by its position, in
/// order.
pub open spec fn load_cells(m: StateModel, s: Seq<Cell>) -> StateModel
    decreases s.len(),
{
    if s.len() == 0 {
        m
    } else {
        add_cell(load_cells(m, s.drop_last()), s.last())
    }
}

/// The messages that greet a newly connected client with socket id `id`: its
/// identity, then every user, every cursor, every sheet and every cell.
pub open spec fn initial_messages_spec(m: StateModel, id: u64) -> Seq<ServerMsg> {
    seq![ServerMsg::Identity(id)] + m.users.map_values(
        |p: (u64, UserInfo)| ServerMsg::UserInfo { id: p.0, info: Some(p.1) },
    ) + m.cursors.map_values(|p: (u64, CursorData)| ServerMsg::UserCursor { id: p.0, data: p.1 })
        + persist_sheets(m.sheets).map_values(|sh: Sheet| ServerMsg::GetSheet { sheet: sh })
        + persist_cells(m.cells).map_values(|c: Cell| ServerMsg::GetCell { cell: c })
}

/// The tables of a session, without its invariant.
struct Parts {
    sheets: Vec<(u64, SheetInfo)>,
    cells: Vec<(u64, CellInfo)>,
    sheets_ids: Vec<(u64, u64)>,
    cell_ids: Vec<((u32, u32, u32), u64)>,
    users: Vec<(u64, UserInfo)>,
    cursors: Vec<(u64, CursorData)>,
    next_id: u64,
}

impl Parts {
    spec fn model(&self) -> StateModel {
        StateModel {
            sheets: self.sheets@,
            cells: self.cells@,
            sheets_ids: self.sheets_ids@,
            cell_ids: self.cell_ids@,
            users: self.users@,
            cursors: self.cursors@,
            next_id: self.next_id,
        }
    }

    fn empty() -> (p: Parts)
        ensures
            p.model() == empty_model(),
    {
        Parts {
            sheets: Vec::new(),
            cells: Vec::new(),
            sheets_ids: Vec::new(),
            cell_ids: Vec::new(),
            users: Vec::new(),
            cursors: Vec::new(),
            next_id: 0,
        }
    }

    fn add_sheet(&mut self, sheet: &Sheet)
        requires
            wf(old(self).model()),
            old(self).next_id < u64::MAX,
        ensures
            final(self).model() == add_sheet(old(self).model(), *sheet),
    {
        let item = SheetInfo { number: sheet.number, name: sheet.name.clone() };
        self.sheets.push((self.next_id, item));
        insert_exec(&mut self.sheets_ids, sheet.number, self.next_id);
        self.next_id = self.next_id + 1;
    }

    fn add_cell(&mut self, cell: &Cell)
        requires
            wf(old(self).model()),
            old(self).next_id < u64::MAX,
        ensures
            final(self).model() == add_cell(old(self).model(), *cell),
    {
        let item = CellInfo {
            position: cell.position,
            cell_type: cell.cell_type.clone(),
            content: cell.content.clone(),
        };
        self.cells.push((self.next_id, item));
        insert_exec(&mut self.cell_ids, cell.position, self.next_id);
        self.next_id = self.next_id + 1;
    }

    fn apply(&mut self, id: u64, msg: ClientMsg) -> (r: Option<ServerMsg>)
        requires
            wf(old(self).model()),
            old(self).next_id < u64::MAX,
        ensures
            (final(self).model(), r) == step(old(self).model(), id, msg),
    {
        match msg {
            ClientMsg::ClientInfo(info) => {
                let out = info.clone();
                insert_exec(&mut self.users, id, info);
                Some(ServerMsg::UserInfo { id, info: Some(out) })
            },
            ClientMsg::CursorData(data) => {
                let out = data.clone();
                insert_exec(&mut self.cursors, id, data);
                Some(ServerMsg::UserCursor { id, data: out })
            },
            ClientMsg::CreateSheet(sheet) => {
                self.add_sheet(&sheet);
                Some(ServerMsg::CreateSheet { id, sheet })
            },
            ClientMsg::DeleteSheet(sheet) => {
                match find(&self.sheets_ids, &sheet.number) {
                    Some(i) => {
                        let sid = self.sheets_ids[i].1;
                        remove_exec(&mut self.sheets, sid);
                        remove_exec(&mut self.sheets_ids, sheet.number);
                        Some(ServerMsg::DeleteSheet { id, sheet })
                    },
                    None => None,
                }
            },
            ClientMsg::RenameSheet(sheet) => {
                match find(&self.sheets_ids, &sheet.number) {
                    Some(i) => {
                        let sid = self.sheets_ids[i].1;
                        match find(&self.sheets, &sid) {
                            Some(j) => {
                                let number = self.sheets[j].1.number;
                                self.sheets.set(
                                    j,
                                    (sid, SheetInfo { number, name: sheet.name.clone() }),
                                );
                            },
                            None => {},
                        }
                        Some(ServerMsg::RenameSheet { id, sheet })
                    },
                    None => None,
                }
            },
            ClientMsg::WriteCell(cell) => {
                match find(&self.cell_ids, &cell.position) {
                    Some(i) => {
                        let cid = self.cell_ids[i].1;
                        match find(&self.cells, &cid) {
                            Some(j) => {
                                let position = self.cells[j].1.position;
                                let cell_type = self.cells[j].1.cell_type.clone();
                                self.cells.set(
                                    j,
                                    (cid, CellInfo { position, cell_type, content: cell.content.clone() }),
                                );
                            },
                            None => {},
                        }
                    },
                    None => {
                        self.add_cell(&cell);
                    },
                }
                Some(ServerMsg::WriteCell { id, cell })
            },
            ClientMsg::DeleteCell(cursor) => {
                match find(&self.cell_ids, &cursor.cursors) {
                    Some(i) => {
                        let cid = self.cell_ids[i].1;
                        remove_exec(&mut self.cells, cid);
                        remove_exec(&mut self.cell_ids, cursor.cursors);
                    },
                    None => {},
                }
                Some(ServerMsg::DeleteCell { id, cursor })
            },
        }
    }
}


/// The shared state of a collaborative session: the sheet and cell lists, their
/// indexes, the connected users and their cursors.
pub struct State {
    parts: Parts,
}

impl View for State {
    type V = StateModel;

    closed spec fn view(&self) -> StateModel {
        self.parts.model()
    }
}

impl State {
    #[verifier::type_invariant]
    spec fn inv(&self) -> bool {
        wf(self.parts.model())
    }

    /// Whether `n` more internal ids can still be handed out.
    pub fn has_room_for(&self, n: usize) -> (b: bool)
        ensures
            b == (self@.next_id + n < u64::MAX),
    {
        (self.parts.next_id as u128) + (n as u128) < (u64::MAX as u128)
    }

    /// Applies one message from the client with socket id `id` and returns the
    /// message to broadcast, if any.
    pub fn apply_message(&mut self, id: u64, msg: ClientMsg) -> (r: Option<ServerMsg>)
        requires
            old(self)@.next_id < u64::MAX,
        ensures
            (final(self)@, r) == step(old(self)@, id, msg),
            wf(final(self)@),
    {
        let mut cur = State::default();
        std::mem::swap(self, &mut cur);
        proof {
            use_type_invariant(&cur);
            lemma_step_wf(cur@, id, msg);
        }
        let State { parts: mut p } = cur;
        let r = p.apply(id, msg);
        *self = State { parts: p };
        r
    }

    /// Forgets the user and cursor of the socket `id`, which has disconnected,
    /// and returns the message that tells the others.
    pub fn disconnect(&mut self, id: u64) -> (r: ServerMsg)
        ensures
            final(self)@ == (StateModel {
                users: remove(old(self)@.users, id),
                cursors: remove(old(self)@.cursors, id),
                ..old(self)@
            }),
            r == (ServerMsg::UserInfo { id, info: None }),
            wf(final(self)@),
    {
        let mut cur = State::default();
        std::mem::swap(self, &mut cur);
        proof {
            use_type_invariant(&cur);
            crate::assoc::lemma_remove(cur@.users, id);
            crate::assoc::lemma_remove(cur@.cursors, id);
        }
        let State { parts: mut p } = cur;
        remove_exec(&mut p.users, id);
        remove_exec(&mut p.cursors, id);
        *self = State { parts: p };
        ServerMsg::UserInfo { id, info: None }
    }

    /// The document as it is persisted: the sheets and cells in list order.
    pub fn get_persist(&self) -> (d: PersistedDocument)
        ensures
            d.sheets@ == persist_sheets(self@.sheets),
            d.cells@ == persist_cells(self@.cells),
    {
        let mut sheets: Vec<Sheet> = Vec::new();
        let mut i: usize = 0;
        while i < self.parts.sheets.len()
            invariant
                i <= self.parts.sheets.len(),
                sheets@ == persist_sheets(self@.sheets).subrange(0, i as int),
                self@.sheets == self.parts.sheets@,
            decreases self.parts.sheets.len() - i,
        {
            let item = &self.parts.sheets[i].1;
            sheets.push(Sheet { number: item.number, name: item.name.clone() });
            i = i + 1;
            assert(sheets@ =~= persist_sheets(self@.sheets).subrange(0, i as int));
        }
        let mut cells: Vec<Cell> = Vec::new();
        let mut j: usize = 0;
        while j < self.parts.cells.len()
            invariant
                j <= self.parts.cells.len(),
                cells@ == persist_cells(self@.cells).subrange(0, j as int),
                self@.cells == self.parts.cells@,
            decreases self.parts.cells.len() - j,
        {
            let item = &self.parts.cells[j].1;
            cells.push(
                Cell {
                    position: item.position,
                    cell_type: item.cell_type.clone(),
                    content: item.content.clone(),
                },
            );
            j = j + 1;
            assert(cells@ =~= persist_cells(self@.cells).subrange(0, j as int));
        }
        assert(sheets@ =~= persist_sheets(self@.sheets));
        assert(cells@ =~= persist_cells(self@.cells));
        PersistedDocument { sheets, cells }
    }

    /// Loads a persisted document into the session: its sheets, then its cells,
    /// each appended in order and indexed.
    pub fn set_persist(&mut self, persist: &PersistedDocument)
        requires
            old(self)@.next_id + persist.sheets.len() + persist.cells.len() < u64::MAX,
        ensures
            final(self)@ == load_cells(load_sheets(old(self)@, persist.sheets@), persist.cells@),
            wf(final(self)@),
    {
        let mut cur = State::default();
        std::mem::swap(self, &mut cur);
        proof {
            use_type_invariant(&cur);
        }
        let ghost m0 = cur@;
        let State { parts: mut p } = cur;
        let mut i: usize = 0;
        while i < persist.sheets.len()
            invariant
                i <= persist.sheets.len(),
                p.model() == load_sheets(m0, persist.sheets@.subrange(0, i as int)),
                wf(p.model()),
                p.next_id == m0.next_id + i,
                m0.next_id + persist.sheets.len() + persist.cells.len() < u64::MAX,
            decreases persist.sheets.len() - i,
        {
            proof {
                lemma_add_sheet_wf(p.model(), persist.sheets@[i as int]);
                assert(persist.sheets@.subrange(0, i + 1).drop_last() =~= persist.sheets@.subrange(
                    0,
                    i as int,
                ));
            }
            p.add_sheet(&persist.sheets[i]);
            i = i + 1;
        }
        assert(persist.sheets@.subrange(0, i as int) =~= persist.sheets@);
        let ghost m1 = p.model();
        let mut j: usize = 0;
        while j < persist.cells.len()
            invariant
                j <= persist.cells.len(),
                p.model() == load_cells(m1, persist.cells@.subrange(0, j as int)),
                wf(p.model()),
                p.next_id == m1.next_id + j,
                m1.next_id + persist.cells.len() < u64::MAX,
            decreases persist.cells.len() - j,
        {
            proof {
                lemma_add_cell_wf(p.model(), persist.cells@[j as int]);
                assert(persist.cells@.subrange(0, j + 1).drop_last() =~= persist.cells@.subrange(
                    0,
                    j as int,
                ));
            }
            p.add_cell(&persist.cells[j]);
            j = j + 1;
        }
        assert(persist.cells@.subrange(0, j as int) =~= persist.cells@);
        *self = State { parts: p };
    }

    /// The messages that greet a newly connected client with socket id `id`.
    pub fn initial_messages(&self, id: u64) -> (v: Vec<ServerMsg>)
        ensures
            v@ == initial_messages_spec(self@, id),
    {
        let ghost m = self@;
        let mut v: Vec<ServerMsg> = Vec::new();
        v.push(ServerMsg::Identity(id));
        let mut i: usize = 0;
        while i < self.parts.users.len()
            invariant
                m == self@,
                i <= self.parts.users.len(),
                v@ == seq![ServerMsg::Identity(id)] + m.users.map_values(
                    |p: (u64, UserInfo)| ServerMsg::UserInfo { id: p.0, info: Some(p.1) },
                ).subrange(0, i as int),
            decreases self.parts.users.len() - i,
        {
            let k = self.parts.users[i].0;
            let u = self.parts.users[i].1.clone();
            v.push(ServerMsg::UserInfo { id: k, info: Some(u) });
            i = i + 1;
            assert(v@ =~= seq![ServerMsg::Identity(id)] + m.users.map_values(
                |p: (u64, UserInfo)| ServerMsg::UserInfo { id: p.0, info: Some(p.1) },
            ).subrange(0, i as int));
        }
        let ghost a = v@;
        assert(m.users.map_values(
            |p: (u64, UserInfo)| ServerMsg::UserInfo { id: p.0, info: Some(p.1) },
        ).subrange(0, i as int) =~= m.users.map_values(
            |p: (u64, UserInfo)| ServerMsg::UserInfo { id: p.0, info: Some(p.1) },
        ));
        let mut j: usize = 0;
        while j < self.parts.cursors.len()
            invariant
                m == self@,
                j <= self.parts.cursors.len(),
                v@ == a + m.cursors.map_values(
                    |p: (u64, CursorData)| ServerMsg::UserCursor { id: p.0, data: p.1 },
                ).subrange(0, j as int),
            decreases self.parts.cursors.len() - j,
        {
            let k = self.parts.cursors[j].0;
            let c = self.parts.cursors[j].1.clone();
            v.push(ServerMsg::UserCursor { id: k, data: c });
            j = j + 1;
            assert(v@ =~= a + m.cursors.map_values(
                |p: (u64, CursorData)| ServerMsg::UserCursor { id: p.0, data: p.1 },
            ).subrange(0, j as int));
        }
        let ghost b = v@;
        assert(m.cursors.map_values(
            |p: (u64, CursorData)| ServerMsg::UserCursor { id: p.0, data: p.1 },
        ).subrange(0, j as int) =~= m.cursors.map_values(
            |p: (u64, CursorData)| ServerMsg::UserCursor { id: p.0, data: p.1 },
        ));
        let doc = self.get_persist();
        let mut s: usize = 0;
        while s < doc.sheets.len()
            invariant
                s <= doc.sheets.len(),
                doc.sheets@ == persist_sheets(m.sheets),
                v@ == b + doc.sheets@.map_values(|sh: Sheet| ServerMsg::GetSheet { sheet: sh }).subrange(
                    0,
                    s as int,
                ),
            decreases doc.sheets.len() - s,
        {
            let sh = doc.sheets[s].clone();
            v.push(ServerMsg::GetSheet { sheet: sh });
            s = s + 1;
            assert(v@ =~= b + doc.sheets@.map_values(|sh: Sheet| ServerMsg::GetSheet { sheet: sh }).subrange(
                0,
                s as int,
            ));
        }
        let ghost c = v@;
        assert(doc.sheets@.map_values(|sh: Sheet| ServerMsg::GetSheet { sheet: sh }).subrange(
            0,
            s as int,
        ) =~= doc.sheets@.map_values(|sh: Sheet| ServerMsg::GetSheet { sheet: sh }));
        let mut t: usize = 0;
        while t < doc.cells.len()
            invariant
                t <= doc.cells.len(),
                doc.cells@ == persist_cells(m.cells),
                v@ == c + doc.cells@.map_values(|ce: Cell| ServerMsg::GetCell { cell: ce }).subrange(
                    0,
                    t as int,
                ),
            decreases doc.cells.len() - t,
        {
            let ce = doc.cells[t].clone();
            v.push(ServerMsg::GetCell { cell: ce });
            t = t + 1;
            assert(v@ =~= c + doc.cells@.map_values(|ce: Cell| ServerMsg::GetCell { cell: ce }).subrange(
                0,
                t as int,
            ));
        }
        assert(doc.cells@.map_values(|ce: Cell| ServerMsg::GetCell { cell: ce }).subrange(
            0,
            t as int,
        ) =~= doc.cells@.map_values(|ce: Cell| ServerMsg::GetCell { cell: ce }));
        assert(v@ =~= initial_messages_spec(m, id));
        v
    }
}

impl Default for State {
    fn default() -> (s: Self)
        ensures
            s@ == empty_model(),
            wf(s@),
    {
        State { parts: Parts::empty() }
    }
}


proof fn lemma_load_sheets(m: StateModel, s: Seq<Sheet>)
    ensures
        persist_sheets(load_sheets(m, s).sheets) == persist_sheets(m.sheets) + s,
        load_sheets(m, s).cells == m.cells,
    decreases s.len(),
{
    if s.len() > 0 {
        lemma_load_sheets(m, s.drop_last());
        let l = load_sheets(m, s.drop_last());
        let last = s.last();
        assert(persist_sheets(add_sheet(l, last).sheets) =~= persist_sheets(l.sheets).push(last));
        assert(persist_sheets(m.sheets) + s =~= (persist_sheets(m.sheets) + s.drop_last()).push(last));
    } else {
        assert(persist_sheets(m.sheets) + s =~= persist_sheets(m.sheets));
    }
}

proof fn lemma_load_cells(m: StateModel, c: Seq<Cell>)
    ensures
        persist_cells(load_cells(m, c).cells) == persist_cells(m.cells) + c,
        load_cells(m, c).sheets == m.sheets,
    decreases c.len(),
{
    if c.len() > 0 {
        lemma_load_cells(m, c.drop_last());
        let l = load_cells(m, c.drop_last());
        let last = c.last();
        assert(persist_cells(add_cell(l, last).cells) =~= persist_cells(l.cells).push(last));
        assert(persist_cells(m.cells) + c =~= (persist_cells(m.cells) + c.drop_last()).push(last));
    } else {
        assert(persist_cells(m.cells) + c =~= persist_cells(m.cells));
    }
}

/// Loading a persisted document into a fresh session and persisting it again
/// gives back the same sheets and cells, in the same order.
pub proof fn law_persist_round_trip(sheets: Seq<Sheet>, cells: Seq<Cell>)
    ensures
        persist_sheets(load_cells(load_sheets(empty_model(), sheets), cells).sheets) == sheets,
        persist_cells(load_cells(load_sheets(empty_model(), sheets), cells).cells) == cells,
{
    let m1 = load_sheets(empty_model(), sheets);
    lemma_load_sheets(empty_model(), sheets);
    lemma_load_cells(m1, cells);
    assert(persist_sheets(empty_model().sheets) =~= Seq::<Sheet>::empty());
    assert(persist_cells(empty_model().cells) =~= Seq::<Cell>::empty());
    assert(Seq::<Sheet>::empty() + sheets =~= sheets);
    assert(Seq::<Cell>::empty() + cells =~= cells);
}

/// After a cell is written, its position is indexed and the indexed cell holds
/// the written content; a cell that was already there keeps its type, a new
/// one takes the written type. The write is broadcast unchanged.
pub proof fn law_write_cell_then_read(m: StateModel, id: u64, cell: Cell)
    requires
        wf(m),
        m.next_id < u64::MAX,
    ensures
        ({
            let (m2, r) = step(m, id, ClientMsg::WriteCell(cell));
            &&& r == Some(ServerMsg::WriteCell { id, cell })
            &&& has_key(m2.cell_ids, cell.position)
            &&& has_key(m2.cells, lookup(m2.cell_ids, cell.position).unwrap())
            &&& lookup(m2.cells, lookup(m2.cell_ids, cell.position).unwrap()).unwrap().content
                == cell.content
            &&& lookup(m2.cells, lookup(m2.cell_ids, cell.position).unwrap()).unwrap().position
                == cell.position
            &&& lookup(m2.cells, lookup(m2.cell_ids, cell.position).unwrap()).unwrap().cell_type
                == if has_key(m.cell_ids, cell.position) {
                lookup(m.cells, lookup(m.cell_ids, cell.position).unwrap()).unwrap().cell_type
            } else {
                cell.cell_type
            }
        }),
{
    let m2 = step(m, id, ClientMsg::WriteCell(cell)).0;
    lemma_has_key_lookup(m.cells);
    lemma_has_key_lookup(m.cell_ids);
    if has_key(m.cell_ids, cell.position) {
        let cid = lookup(m.cell_ids, cell.position).unwrap();
        let info = lookup(m.cells, cid).unwrap();
        crate::assoc::lemma_insert(
            m.cells,
            cid,
            CellInfo { position: info.position, cell_type: info.cell_type, content: cell.content },
        );
    } else {
        let item = CellInfo { position: cell.position, cell_type: cell.cell_type, content: cell.content };
        assert(!has_key(m.cells, m.next_id));
        crate::assoc::lemma_insert(m.cells, m.next_id, item);
        crate::assoc::lemma_insert(m.cell_ids, cell.position, m.next_id);
    }
    lemma_step_wf(m, id, ClientMsg::WriteCell(cell));
    lemma_has_key_lookup(m2.cells);
    lemma_has_key_lookup(m2.cell_ids);
}

/// After a cell is deleted, no cell is indexed at that position any more and
/// the cell that was indexed there is gone from the list; the deletion is
/// broadcast unchanged.
pub proof fn law_delete_cell(m: StateModel, id: u64, cursor: CursorData)
    requires
        wf(m),
    ensures
        ({
            let (m2, r) = step(m, id, ClientMsg::DeleteCell(cursor));
            &&& r == Some(ServerMsg::DeleteCell { id, cursor })
            &&& !has_key(m2.cell_ids, cursor.cursors)
            &&& has_key(m.cell_ids, cursor.cursors) ==> !has_key(
                m2.cells,
                lookup(m.cell_ids, cursor.cursors).unwrap(),
            )
        }),
{
    lemma_has_key_lookup(m.cell_ids);
    if has_key(m.cell_ids, cursor.cursors) {
        let cid = lookup(m.cell_ids, cursor.cursors).unwrap();
        crate::assoc::lemma_remove(m.cells, cid);
        crate::assoc::lemma_remove(m.cell_ids, cursor.cursors);
        let m2 = step(m, id, ClientMsg::DeleteCell(cursor)).0;
        lemma_has_key_lookup(m2.cells);
        lemma_has_key_lookup(m2.cell_ids);
    }
}

/// A created sheet is appended to the persisted sheets and its number is
/// indexed to it; the creation is broadcast unchanged.
pub proof fn law_create_sheet(m: StateModel, id: u64, sheet: Sheet)
    requires
        wf(m),
        m.next_id < u64::MAX,
    ensures
        ({
            let (m2, r) = step(m, id, ClientMsg::CreateSheet(sheet));
            &&& r == Some(ServerMsg::CreateSheet { id, sheet })
            &&& persist_sheets(m2.sheets) == persist_sheets(m.sheets).push(sheet)
            &&& lookup(m2.sheets_ids, sheet.number) == Some(m.next_id)
            &&& lookup(m2.sheets, m.next_id) == Some(SheetInfo { number: sheet.number, name: sheet.name })
        }),
{
    let m2 = step(m, id, ClientMsg::CreateSheet(sheet)).0;
    let item = SheetInfo { number: sheet.number, name: sheet.name };
    assert(!has_key(m.sheets, m.next_id));
    crate::assoc::lemma_insert(m.sheets, m.next_id, item);
    crate::assoc::lemma_insert(m.sheets_ids, sheet.number, m.next_id);
    assert(persist_sheets(m2.sheets) =~= persist_sheets(m.sheets).push(sheet));
}

/// Deleting an indexed sheet removes exactly that sheet from the list and its
/// number from the index; deleting a number that is not indexed changes
/// nothing and broadcasts nothing.
pub proof fn law_delete_sheet(m: StateModel, id: u64, sheet: Sheet)
    requires
        wf(m),
    ensures
        ({
            let (m2, r) = step(m, id, ClientMsg::DeleteSheet(sheet));
            if has_key(m.sheets_ids, sheet.number) {
                &&& r == Some(ServerMsg::DeleteSheet { id, sheet })
                &&& !has_key(m2.sheets_ids, sheet.number)
                &&& m2.sheets.len() + 1 == m.sheets.len()
                &&& !has_key(m2.sheets, lookup(m.sheets_ids, sheet.number).unwrap())
            } else {
                &&& r is None
                &&& m2 == m
            }
        }),
{
    lemma_has_key_lookup(m.sheets_ids);
    lemma_has_key_lookup(m.sheets);
    if has_key(m.sheets_ids, sheet.number) {
        let sid = lookup(m.sheets_ids, sheet.number).unwrap();
        crate::assoc::lemma_remove(m.sheets, sid);
        crate::assoc::lemma_remove(m.sheets_ids, sheet.number);
        let m2 = step(m, id, ClientMsg::DeleteSheet(sheet)).0;
        lemma_has_key_lookup(m2.sheets);
        lemma_has_key_lookup(m2.sheets_ids);
    }
}

/// Creating a sheet under a number no sheet is indexed by, and then deleting
/// that number, gives back the sheet list and the index as they were; the
/// deletion is broadcast unchanged, and only the id counter has moved on.
pub proof fn law_create_then_delete_sheet(m: StateModel, id: u64, sheet: Sheet)
    requires
        wf(m),
        m.next_id < u64::MAX,
        !has_key(m.sheets_ids, sheet.number),
    ensures
        ({
            let (m1, r1) = step(m, id, ClientMsg::CreateSheet(sheet));
            let (m2, r2) = step(m1, id, ClientMsg::DeleteSheet(sheet));
            &&& r1 == Some(ServerMsg::CreateSheet { id, sheet })
            &&& r2 == Some(ServerMsg::DeleteSheet { id, sheet })
            &&& m2 == (StateModel { next_id: (m.next_id + 1) as u64, ..m })
            &&& persist_sheets(m2.sheets) == persist_sheets(m.sheets)
        }),
{
    let nid = m.next_id;
    let item = SheetInfo { number: sheet.number, name: sheet.name };
    let m1 = step(m, id, ClientMsg::CreateSheet(sheet)).0;
    assert(!has_key(m.sheets, nid));
    crate::assoc::lemma_insert(m.sheets, nid, item);
    crate::assoc::lemma_insert(m.sheets_ids, sheet.number, nid);
    assert(m1.sheets == m.sheets.push((nid, item)));
    assert(m1.sheets_ids == m.sheets_ids.push((sheet.number, nid)));
    assert(lookup(m1.sheets_ids, sheet.number) == Some(nid));
    crate::assoc::lemma_key_pos_unique(m1.sheets, nid, m.sheets.len() as int);
    crate::assoc::lemma_key_pos_unique(m1.sheets_ids, sheet.number, m.sheets_ids.len() as int);
    let m2 = step(m1, id, ClientMsg::DeleteSheet(sheet)).0;
    assert(m2.sheets =~= m.sheets);
    assert(m2.sheets_ids =~= m.sheets_ids);
}

/// Renaming an indexed sheet gives it the new name and keeps its number, the
/// order and the number of sheets; other numbers are not renamed.
pub proof fn law_rename_sheet(m: StateModel, id: u64, sheet: Sheet)
    requires
        wf(m),
        has_key(m.sheets_ids, sheet.number),
    ensures
        ({
            let (m2, r) = step(m, id, ClientMsg::RenameSheet(sheet));
            let sid = lookup(m.sheets_ids, sheet.number).unwrap();
            &&& r == Some(ServerMsg::RenameSheet { id, sheet })
            &&& lookup(m2.sheets, sid) == Some(SheetInfo { number: sheet.number, name: sheet.name })
            &&& m2.sheets.len() == m.sheets.len()
            &&& forall|other: u64| other != sid ==> lookup(m2.sheets, other) == lookup(m.sheets, other)
        }),
{
    lemma_has_key_lookup(m.sheets_ids);
    lemma_has_key_lookup(m.sheets);
    let sid = lookup(m.sheets_ids, sheet.number).unwrap();
    let info = lookup(m.sheets, sid).unwrap();
    crate::assoc::lemma_insert(m.sheets, sid, SheetInfo { number: info.number, name: sheet.name });
}

/// A user's information and cursor are what they last sent, and are gone once
/// they disconnect.
pub proof fn law_user_info(m: StateModel, id: u64, info: UserInfo, data: CursorData)
    requires
        wf(m),
    ensures
        lookup(step(m, id, ClientMsg::ClientInfo(info)).0.users, id) == Some(info),
        lookup(step(m, id, ClientMsg::CursorData(data)).0.cursors, id) == Some(data),
        lookup(remove(m.users, id), id) is None,
        lookup(remove(m.cursors, id), id) is None,
{
    crate::assoc::lemma_insert(m.users, id, info);
    crate::assoc::lemma_insert(m.cursors, id, data);
    crate::assoc::lemma_remove(m.users, id);
    crate::assoc::lemma_remove(m.cursors, id);
}

/// Whether a session last used `elapsed_secs` seconds and `elapsed_nanos`
/// nanoseconds ago has outlived its keep time of `expiry_days` days: only a
/// time strictly longer than the keep time expires it.
pub fn document_expired(elapsed_secs: u64, elapsed_nanos: u32, expiry_days: u32) -> (b: bool)
    requires
        elapsed_nanos < 1_000_000_000,
    ensures
        b == (elapsed_secs * 1_000_000_000 + elapsed_nanos > 86_400 * expiry_days * 1_000_000_000),
{
    let limit: u64 = 86_400u64 * (expiry_days as u64);
    elapsed_secs > limit || (elapsed_secs == limit && elapsed_nanos > 0)
}

/// Every message but a deletion or renaming of a sheet is broadcast to the
/// others as it came, under the sender's id; a deletion or renaming is
/// broadcast as it came exactly when its number is indexed. A user's
/// information or cursor changes nothing else of the session.
pub proof fn law_broadcasts(m: StateModel, id: u64, msg: ClientMsg)
    ensures
        ({
            let (m2, r) = step(m, id, msg);
            match msg {
                ClientMsg::ClientInfo(info) => r == Some(ServerMsg::UserInfo { id, info: Some(info) })
                    && m2 == (StateModel { users: m2.users, ..m }),
                ClientMsg::CursorData(data) => r == Some(ServerMsg::UserCursor { id, data })
                    && m2 == (StateModel { cursors: m2.cursors, ..m }),
                ClientMsg::CreateSheet(sheet) => r == Some(ServerMsg::CreateSheet { id, sheet }),
                ClientMsg::DeleteSheet(sheet) => (r is Some <==> has_key(m.sheets_ids, sheet.number))
                    && (r is Some ==> r == Some(ServerMsg::DeleteSheet { id, sheet })),
                ClientMsg::RenameSheet(sheet) => (r is Some <==> has_key(m.sheets_ids, sheet.number))
                    && (r is Some ==> r == Some(ServerMsg::RenameSheet { id, sheet })),
                ClientMsg::WriteCell(cell) => r == Some(ServerMsg::WriteCell { id, cell }),
                ClientMsg::DeleteCell(cursor) => r == Some(ServerMsg::DeleteCell { id, cursor }),
            }
        }),
{
    lemma_has_key_lookup(m.sheets_ids);
}

/// Loading persisted sheets keeps the session well formed and indexes every
/// loaded sheet's number, pointing at a sheet with that number; the id counter
/// moves on by one per sheet.
pub proof fn law_loaded_sheets_indexed(m: StateModel, s: Seq<Sheet>)
    requires
        wf(m),
        m.next_id + s.len() < u64::MAX,
    ensures
        wf(load_sheets(m, s)),
        load_sheets(m, s).next_id == m.next_id + s.len(),
        load_sheets(m, s).cell_ids == m.cell_ids,
        forall|k: int|
            0 <= k < s.len() ==> {
                let l = load_sheets(m, s);
                &&& has_key(l.sheets_ids, #[trigger] s[k].number)
                &&& has_key(l.sheets, lookup(l.sheets_ids, s[k].number).unwrap())
                &&& lookup(l.sheets, lookup(l.sheets_ids, s[k].number).unwrap()).unwrap().number == s[k].number
            },
    decreases s.len(),
{
    if s.len() > 0 {
        let t = s.drop_last();
        let last = s.last();
        law_loaded_sheets_indexed(m, t);
        let p = load_sheets(m, t);
        let l = load_sheets(m, s);
        lemma_add_sheet_wf(p, last);
        crate::assoc::lemma_insert(p.sheets_ids, last.number, p.next_id);
        lemma_has_key_lookup(p.sheets_ids);
        lemma_has_key_lookup(l.sheets_ids);
        assert forall|k: int| 0 <= k < s.len() implies has_key(l.sheets_ids, #[trigger] s[k].number) by {
            if s[k].number != last.number {
                assert(k < t.len());
                assert(t[k] == s[k]);
                assert(has_key(p.sheets_ids, t[k].number));
            }
        }
    }
}

/// Loading persisted cells keeps the session well formed and indexes every
/// loaded cell's position, pointing at a cell at that position; the sheets and
/// their index stay as they were.
pub proof fn law_loaded_cells_indexed(m: StateModel, c: Seq<Cell>)
    requires
        wf(m),
        m.next_id + c.len() < u64::MAX,
    ensures
        wf(load_cells(m, c)),
        load_cells(m, c).next_id == m.next_id + c.len(),
        load_cells(m, c).sheets == m.sheets,
        load_cells(m, c).sheets_ids == m.sheets_ids,
        forall|k: int|
            0 <= k < c.len() ==> {
                let l = load_cells(m, c);
                &&& has_key(l.cell_ids, #[trigger] c[k].position)
                &&& has_key(l.cells, lookup(l.cell_ids, c[k].position).unwrap())
                &&& lookup(l.cells, lookup(l.cell_ids, c[k].position).unwrap()).unwrap().position == c[k].position
            },
    decreases c.len(),
{
    if c.len() > 0 {
        let t = c.drop_last();
        let last = c.last();
        law_loaded_cells_indexed(m, t);
        let p = load_cells(m, t);
        let l = load_cells(m, c);
        lemma_add_cell_wf(p, last);
        crate::assoc::lemma_insert(p.cell_ids, last.position, p.next_id);
        lemma_has_key_lookup(p.cell_ids);
        lemma_has_key_lookup(l.cell_ids);
        assert forall|k: int| 0 <= k < c.len() implies has_key(l.cell_ids, #[trigger] c[k].position) by {
            if c[k].position != last.position {
                assert(k < t.len());
                assert(t[k] == c[k]);
                assert(has_key(p.cell_ids, t[k].position));
            }
        }
    }
}

/// A document loaded into a fresh session (what `set_persist` does on
/// `State::default()`) has every sheet number and every cell position
/// indexed, so later renames, deletions and writes find them.
pub proof fn law_loaded_document_indexed(sheets: Seq<Sheet>, cells: Seq<Cell>)
    requires
        sheets.len() + cells.len() < u64::MAX,
    ensures
        ({
            let l = load_cells(load_sheets(empty_model(), sheets), cells);
            &&& wf(l)
            &&& forall|k: int| 0 <= k < sheets.len() ==> has_key(l.sheets_ids, #[trigger] sheets[k].number)
            &&& forall|k: int| 0 <= k < cells.len() ==> has_key(l.cell_ids, #[trigger] cells[k].position)
        }),
{
    law_loaded_sheets_indexed(empty_model(), sheets);
    law_loaded_cells_indexed(load_sheets(empty_model(), sheets), cells);
}

/// The greeting of a new client: its identity first, then one user message
/// for every connected user, one cursor message for every cursor, one message
/// for every sheet and one for every cell, each in the session's order and
/// nothing else.
pub proof fn law_greeting(m: StateModel, id: u64)
    ensures
        ({
            let g = initial_messages_spec(m, id);
            let u = m.users.len() as int;
            let c = m.cursors.len() as int;
            let s = m.sheets.len() as int;
            &&& g.len() == 1 + u + c + s + m.cells.len()
            &&& g[0] == ServerMsg::Identity(id)
            &&& forall|i: int|
                0 <= i < u ==> #[trigger] g[1 + i] == ServerMsg::UserInfo {
                    id: m.users[i].0,
                    info: Some(m.users[i].1),
                }
            &&& forall|j: int|
                0 <= j < c ==> #[trigger] g[1 + u + j] == ServerMsg::UserCursor {
                    id: m.cursors[j].0,
                    data: m.cursors[j].1,
                }
            &&& forall|k: int|
                0 <= k < s ==> #[trigger] g[1 + u + c + k] == ServerMsg::GetSheet {
                    sheet: Sheet { number: m.sheets[k].1.number, name: m.sheets[k].1.name },
                }
            &&& forall|k: int|
                0 <= k < m.cells.len() ==> #[trigger] g[1 + u + c + s + k] == ServerMsg::GetCell {
                    cell: Cell {
                        position: m.cells[k].1.position,
                        cell_type: m.cells[k].1.cell_type,
                        content: m.cells[k].1.content,
                    },
                }
        }),
{
    let g = initial_messages_spec(m, id);
    let u = m.users.len() as int;
    let c = m.cursors.len() as int;
    let s = m.sheets.len() as int;
    assert forall|i: int| 0 <= i < u implies #[trigger] g[1 + i] == ServerMsg::UserInfo {
        id: m.users[i].0,
        info: Some(m.users[i].1),
    } by {}
    assert forall|j: int| 0 <= j < c implies #[trigger] g[1 + u + j] == ServerMsg::UserCursor {
        id: m.cursors[j].0,
        data: m.cursors[j].1,
    } by {}
    assert forall|k: int| 0 <= k < s implies #[trigger] g[1 + u + c + k] == ServerMsg::GetSheet {
        sheet: Sheet { number: m.sheets[k].1.number, name: m.sheets[k].1.name },
    } by {}
    assert forall|k: int| 0 <= k < m.cells.len() implies #[trigger] g[1 + u + c + s + k] == ServerMsg::GetCell {
        cell: Cell {
            position: m.cells[k].1.position,
            cell_type: m.cells[k].1.cell_type,
            content: m.cells[k].1.content,
        },
    } by {}
}

} // verus!
