//! The navigation list: connections, below each expanded connection its
//! databases, below each expanded database its collections.
//!
//! The list is never kept up to date piece by piece. It is derived, by
//! [`flatten`], from the stored connections, the connection in use, the two
//! sets of what is expanded and the two maps of the names known so far.

use vstd::prelude::*;
use crate::app::{
    AppState, Connection, ConnectionModel, FocusArea, ItemModel, SelectableItem, StateModel,
};
use crate::collections::{map_without, set_without, Dropped};
use crate::text::same_text;

verus! {

/// What the navigation list is derived from.
pub struct TreeModel {
    pub connections: Seq<ConnectionModel>,
    pub connected_uri: Option<Seq<char>>,
    pub expanded_uris: Set<Seq<char>>,
    pub database_map: Map<Seq<char>, Seq<Seq<char>>>,
    pub expanded_dbs: Set<(Seq<char>, Seq<char>)>,
    pub collection_map: Map<(Seq<char>, Seq<char>), Seq<Seq<char>>>,
}

/// The part of a session that its navigation list is derived from.
pub open spec fn tree_of(s: StateModel) -> TreeModel {
    TreeModel {
        connections: s.connections,
        connected_uri: s.connected_uri,
        expanded_uris: s.expanded_uris,
        database_map: s.database_map,
        expanded_dbs: s.expanded_dbs,
        collection_map: s.collection_map,
    }
}

/// One line for each collection name, in order.
pub open spec fn collection_items(uri: Seq<char>, db: Seq<char>, names: Seq<Seq<char>>) -> Seq<
    ItemModel,
> {
    Seq::new(names.len(), |i: int| ItemModel::Collection { uri, db, name: names[i] })
}

/// Whether the collections of a database are shown: the database is expanded
/// and its collection names are known.
pub open spec fn shows_collections(t: TreeModel, uri: Seq<char>, db: Seq<char>) -> bool {
    t.expanded_dbs.contains((uri, db)) && t.collection_map.dom().contains((uri, db))
}

/// Whether the databases of a connection are shown: the connection is
/// expanded and its database names are known.
pub open spec fn shows_databases(t: TreeModel, uri: Seq<char>) -> bool {
    t.expanded_uris.contains(uri) && t.database_map.dom().contains(uri)
}

/// The line of a database, followed by its collections where they are shown.
pub open spec fn database_block(t: TreeModel, uri: Seq<char>, db: Seq<char>) -> Seq<ItemModel> {
    seq![ItemModel::Database { uri, name: db }] + (if shows_collections(t, uri, db) {
        collection_items(uri, db, t.collection_map[(uri, db)])
    } else {
        Seq::empty()
    })
}

/// The blocks of the first `n` databases of a connection.
pub open spec fn database_blocks(t: TreeModel, uri: Seq<char>, dbs: Seq<Seq<char>>, n: nat) -> Seq<
    ItemModel,
>
    decreases n,
{
    if n == 0 || n > dbs.len() {
        Seq::empty()
    } else {
        database_blocks(t, uri, dbs, (n - 1) as nat) + database_block(t, uri, dbs[n - 1])
    }
}

/// The line of a connection, followed by the blocks of its databases where
/// they are shown.
pub open spec fn connection_block(t: TreeModel, c: ConnectionModel) -> Seq<ItemModel> {
    seq![
        ItemModel::Uri { uri: c.uri, name: c.name, connected: t.connected_uri == Some(c.uri) },
    ] + (if shows_databases(t, c.uri) {
        database_blocks(t, c.uri, t.database_map[c.uri], t.database_map[c.uri].len())
    } else {
        Seq::empty()
    })
}

/// The blocks of the first `n` connections.
pub open spec fn flatten_prefix(t: TreeModel, n: nat) -> Seq<ItemModel>
    decreases n,
{
    if n == 0 || n > t.connections.len() {
        Seq::empty()
    } else {
        flatten_prefix(t, (n - 1) as nat) + connection_block(t, t.connections[n - 1])
    }
}

/// The navigation list.
pub open spec fn flatten(t: TreeModel) -> Seq<ItemModel> {
    flatten_prefix(t, t.connections.len())
}

/// `set` with `a` put in where it was out, and taken out where it was in.
pub open spec fn toggled<A>(set: Set<A>, a: A) -> Set<A> {
    if set.contains(a) {
        set.remove(a)
    } else {
        set.insert(a)
    }
}

/// The session after the expansion of `node` is toggled: a connection or a
/// database changes sides in its set of expanded nodes, and its children are
/// asked for where they are not known yet; a collection has nothing to
/// expand.
pub open spec fn toggle_step(s: StateModel, node: ItemModel) -> StateModel {
    match node {
        ItemModel::Uri { uri, .. } => StateModel {
            expanded_uris: toggled(s.expanded_uris, uri),
            connect_to: if s.database_map.dom().contains(uri) {
                s.connect_to
            } else {
                Some(uri)
            },
            ..s
        },
        ItemModel::Database { uri, name } => StateModel {
            expanded_dbs: toggled(s.expanded_dbs, (uri, name)),
            collection_to_load: if s.collection_map.dom().contains((uri, name)) {
                s.collection_to_load
            } else {
                Some((uri, name))
            },
            ..s
        },
        ItemModel::Collection { .. } => s,
    }
}

/// The session after all that is known of the connection `uri` is dropped:
/// its database names, its place among the expanded connections, and every
/// database of it among the expanded databases and the known collections.
pub open spec fn invalidate_step(s: StateModel, uri: Seq<char>) -> StateModel {
    StateModel {
        database_map: s.database_map.remove(uri),
        expanded_uris: s.expanded_uris.remove(uri),
        expanded_dbs: set_without::<(String, String)>(s.expanded_dbs, Dropped::Root(uri)),
        collection_map: map_without::<(String, String), Seq<Seq<char>>>(
            s.collection_map,
            Dropped::Root(uri),
        ),
        ..s
    }
}

/// The first position at or after `from` that holds `item`, or the length of
/// `items` where there is none.
pub open spec fn item_position(items: Seq<ItemModel>, item: ItemModel, from: int) -> int
    decreases items.len() - from,
{
    if 0 <= from < items.len() && items[from] != item {
        item_position(items, item, from + 1)
    } else {
        from
    }
}

/// The session after a jump to the collection `name`: its connection and its
/// database count as expanded, and where the navigation list holds the
/// collection, the cursor is put on it and the list gets the focus.
pub open spec fn goto_step(s: StateModel, uri: Seq<char>, db: Seq<char>, name: Seq<char>) -> StateModel {
    let at = item_position(s.tree_items, ItemModel::Collection { uri, db, name }, 0);
    let expanded = StateModel {
        expanded_uris: s.expanded_uris.insert(uri),
        expanded_dbs: s.expanded_dbs.insert((uri, db)),
        ..s
    };
    if 0 <= at < s.tree_items.len() {
        StateModel { selected_index: at as usize, focus: FocusArea::Connections, ..expanded }
    } else {
        expanded
    }
}

impl AppState {
    fn push_database_block(&self, uri: &String, db: &String, items: &mut Vec<SelectableItem>)
        ensures
            final(items).deep_view() == old(items).deep_view() + database_block(
                tree_of(self@),
                uri@,
                db@,
            ),
    {
        let ghost t = tree_of(self@);
        let ghost start = items.deep_view();
        items.push(SelectableItem::Database { uri: uri.clone(), name: db.clone() });
        let ghost head = start + seq![ItemModel::Database { uri: uri@, name: db@ }];
        proof {
            assert(items.deep_view() =~= head);
        }
        let key = (uri.clone(), db.clone());
        if self.expanded_dbs.contains(&key) {
            match self.collection_map.get(&key) {
                Some(names) => {
                    let ghost all = collection_items(uri@, db@, names.deep_view());
                    let mut k: usize = 0;
                    while k < names.len()
                        invariant
                            0 <= k <= names.len(),
                            all == collection_items(uri@, db@, names.deep_view()),
                            items.deep_view() == head + all.take(k as int),
                        decreases names.len() - k,
                    {
                        let ghost before = items.deep_view();
                        items.push(
                            SelectableItem::Collection {
                                uri: uri.clone(),
                                db: db.clone(),
                                name: names[k].clone(),
                            },
                        );
                        proof {
                            assert(items.deep_view() =~= before.push(all[k as int]));
                            assert(head + all.take(k + 1) =~= (head + all.take(k as int)).push(
                                all[k as int],
                            ));
                        }
                        k += 1;
                    }
                    proof {
                        assert(all.take(names.len() as int) =~= all);
                        assert(head + all =~= start + database_block(t, uri@, db@));
                    }
                },
                None => {
                    proof {
                        assert(head =~= start + database_block(t, uri@, db@));
                    }
                },
            }
        } else {
            proof {
                assert(head =~= start + database_block(t, uri@, db@));
            }
        }
    }

    fn push_connection_block(&self, c: &Connection, items: &mut Vec<SelectableItem>)
        ensures
            final(items).deep_view() == old(items).deep_view() + connection_block(
                tree_of(self@),
                c.deep_view(),
            ),
    {
        let ghost t = tree_of(self@);
        let ghost start = items.deep_view();
        let connected = match &self.connected_uri {
            Some(uri) => *uri == c.uri,
            None => false,
        };
        items.push(SelectableItem::Uri { uri: c.uri.clone(), name: c.name.clone(), connected });
        let ghost head = start + seq![
            ItemModel::Uri { uri: c.uri@, name: c.name@, connected: t.connected_uri == Some(c.uri@) },
        ];
        proof {
            assert(items.deep_view() =~= head);
        }
        if self.expanded_uris.contains(&c.uri) {
            match self.database_map.get(&c.uri) {
                Some(dbs) => {
                    let mut j: usize = 0;
                    while j < dbs.len()
                        invariant
                            0 <= j <= dbs.len(),
                            t == tree_of(self@),
                            items.deep_view() == head + database_blocks(
                                t,
                                c.uri@,
                                dbs.deep_view(),
                                j as nat,
                            ),
                        decreases dbs.len() - j,
                    {
                        let ghost before = database_blocks(t, c.uri@, dbs.deep_view(), j as nat);
                        self.push_database_block(&c.uri, &dbs[j], items);
                        proof {
                            let block = database_block(t, c.uri@, dbs[j as int]@);
                            assert((head + before) + block =~= head + (before + block));
                        }
                        j += 1;
                    }
                },
                None => {
                    proof {
                        assert(head =~= start + connection_block(t, c.deep_view()));
                    }
                },
            }
        } else {
            proof {
                assert(head =~= start + connection_block(t, c.deep_view()));
            }
        }
    }

    /// The navigation list, derived from what the session holds.
    pub fn flatten(&self) -> (items: Vec<SelectableItem>)
        ensures
            items.deep_view() == flatten(tree_of(self@)),
    {
        let ghost t = tree_of(self@);
        let mut items: Vec<SelectableItem> = Vec::new();
        let mut i: usize = 0;
        proof {
            assert(items.deep_view() =~= flatten_prefix(t, 0));
        }
        while i < self.connections.len()
            invariant
                0 <= i <= self.connections.len(),
                t == tree_of(self@),
                items.deep_view() == flatten_prefix(t, i as nat),
            decreases self.connections.len() - i,
        {
            self.push_connection_block(&self.connections[i], &mut items);
            i += 1;
        }
        items
    }

    /// Derives the navigation list anew.
    pub fn rebuild_tree_items(&mut self)
        ensures
            final(self)@ == (StateModel { tree_items: flatten(tree_of(old(self)@)), ..old(self)@ }),
    {
        self.tree_items = self.flatten();
    }

    /// Toggles the expansion of `node`, and asks for its children where they
    /// are not known yet. The navigation list itself is left as it is.
    pub fn toggle_expand(&mut self, node: &SelectableItem)
        ensures
            final(self)@ == toggle_step(old(self)@, node.deep_view()),
    {
        match node {
            SelectableItem::Uri { uri, .. } => {
                if self.expanded_uris.contains(uri) {
                    self.expanded_uris.remove(uri);
                } else {
                    self.expanded_uris.insert(uri.clone());
                }
                if !self.database_map.contains_key(uri) {
                    self.connect_to = Some(uri.clone());
                }
            },
            SelectableItem::Database { uri, name } => {
                let key = (uri.clone(), name.clone());
                if !self.collection_map.contains_key(&key) {
                    self.collection_to_load = Some((uri.clone(), name.clone()));
                }
                if self.expanded_dbs.contains(&key) {
                    self.expanded_dbs.remove(&key);
                } else {
                    self.expanded_dbs.insert(key);
                }
            },
            SelectableItem::Collection { .. } => {},
        }
    }

    /// Drops all that is known of the connection `uri`.
    pub fn invalidate_connection(&mut self, uri: &str)
        ensures
            final(self)@ == invalidate_step(old(self)@, uri@),
    {
        let key = uri.to_owned();
        self.database_map.remove(&key);
        self.expanded_uris.remove(&key);
        self.expanded_dbs.remove_root(uri);
        self.collection_map.remove_root(uri);
        proof {
            let s = old(self)@;
            assert(self@.database_map =~= s.database_map.remove(uri@));
            assert(self@.collection_map =~= map_without::<(String, String), Seq<Seq<char>>>(
                s.collection_map,
                Dropped::Root(uri@),
            ));
        }
    }
}

/// Whether `item` is the line of the collection `name`.
fn is_collection(item: &SelectableItem, uri: &str, db: &str, name: &str) -> (b: bool)
    ensures
        b == (item.deep_view() == ItemModel::Collection { uri: uri@, db: db@, name: name@ }),
{
    match item {
        SelectableItem::Collection { uri: u, db: d, name: n } => same_text(
            u.as_str(),
            uri,
        ) && same_text(d.as_str(), db) && same_text(n.as_str(), name),
        _ => false,
    }
}

/// Jumps to the collection `name` of the database `db` of the connection
/// `uri`.
pub fn goto_collection(state: &mut AppState, uri: &str, db: &str, name: &str)
    ensures
        final(state)@ == goto_step(old(state)@, uri@, db@, name@),
{
    state.expanded_uris.insert(uri.to_owned());
    state.expanded_dbs.insert((uri.to_owned(), db.to_owned()));
    let ghost target = ItemModel::Collection { uri: uri@, db: db@, name: name@ };
    let mut i: usize = 0;
    while i < state.tree_items.len() && !is_collection(&state.tree_items[i], uri, db, name)
        invariant
            0 <= i <= state.tree_items.len(),
            target == (ItemModel::Collection { uri: uri@, db: db@, name: name@ }),
            item_position(state.tree_items.deep_view(), target, i as int) == item_position(
                state.tree_items.deep_view(),
                target,
                0,
            ),
        decreases state.tree_items.len() - i,
    {
        i += 1;
    }
    if i < state.tree_items.len() {
        state.selected_index = i;
        state.focus = FocusArea::Connections;
    }
}

/// A line of the blocks of a connection's databases is a database of that
/// connection, or a collection of a database of it whose collections are
/// shown.
proof fn lemma_database_blocks_items(
    t: TreeModel,
    uri: Seq<char>,
    dbs: Seq<Seq<char>>,
    n: nat,
    i: int,
)
    requires
        0 <= i < database_blocks(t, uri, dbs, n).len(),
    ensures
        match database_blocks(t, uri, dbs, n)[i] {
            ItemModel::Uri { .. } => false,
            ItemModel::Database { uri: u, .. } => u == uri,
            ItemModel::Collection { uri: u, db, .. } => u == uri && shows_collections(t, u, db),
        },
    decreases n,
{
    if !(n == 0 || n > dbs.len()) {
        let before = database_blocks(t, uri, dbs, (n - 1) as nat);
        if i < before.len() {
            lemma_database_blocks_items(t, uri, dbs, (n - 1) as nat, i);
        }
    }
}

proof fn lemma_flatten_prefix_items(t: TreeModel, n: nat, i: int)
    requires
        0 <= i < flatten_prefix(t, n).len(),
    ensures
        match flatten_prefix(t, n)[i] {
            ItemModel::Uri { .. } => true,
            ItemModel::Database { uri, .. } => shows_databases(t, uri),
            ItemModel::Collection { uri, db, .. } => shows_databases(t, uri) && shows_collections(
                t,
                uri,
                db,
            ),
        },
    decreases n,
{
    if !(n == 0 || n > t.connections.len()) {
        let before = flatten_prefix(t, (n - 1) as nat);
        let c = t.connections[n - 1];
        if i < before.len() {
            lemma_flatten_prefix_items(t, (n - 1) as nat, i);
        } else if i > before.len() {
            lemma_database_blocks_items(
                t,
                c.uri,
                t.database_map[c.uri],
                t.database_map[c.uri].len(),
                i - before.len() - 1,
            );
        }
    }
}

/// A database is in the navigation list only where its connection is
/// expanded and its database names are known, and a collection only where,
/// besides, its database is expanded and its collection names are known.
pub proof fn law_children_only_of_expanded(t: TreeModel, i: int)
    requires
        0 <= i < flatten(t).len(),
    ensures
        flatten(t)[i] matches ItemModel::Database { uri, .. } ==> shows_databases(t, uri),
        flatten(t)[i] matches ItemModel::Collection { uri, db, .. } ==> shows_databases(t, uri)
            && shows_collections(t, uri, db),
{
    lemma_flatten_prefix_items(t, t.connections.len(), i);
}

/// What is in one of two sequences is in the two put together.
proof fn lemma_contains_joined(a: Seq<ItemModel>, b: Seq<ItemModel>, x: ItemModel)
    requires
        a.contains(x) || b.contains(x),
    ensures
        (a + b).contains(x),
{
    if a.contains(x) {
        let i = choose|i: int| 0 <= i < a.len() && a[i] == x;
        assert((a + b)[i] == x);
    } else {
        let i = choose|i: int| 0 <= i < b.len() && b[i] == x;
        assert((a + b)[a.len() + i] == x);
    }
}

proof fn lemma_block_in_blocks(
    t: TreeModel,
    uri: Seq<char>,
    dbs: Seq<Seq<char>>,
    n: nat,
    j: int,
    x: ItemModel,
)
    requires
        0 <= j < n <= dbs.len(),
        database_block(t, uri, dbs[j]).contains(x),
    ensures
        database_blocks(t, uri, dbs, n).contains(x),
    decreases n,
{
    let before = database_blocks(t, uri, dbs, (n - 1) as nat);
    if j < n - 1 {
        lemma_block_in_blocks(t, uri, dbs, (n - 1) as nat, j, x);
    }
    lemma_contains_joined(before, database_block(t, uri, dbs[n - 1]), x);
}

proof fn lemma_block_in_flatten(t: TreeModel, n: nat, i: int, x: ItemModel)
    requires
        0 <= i < n <= t.connections.len(),
        connection_block(t, t.connections[i]).contains(x),
    ensures
        flatten_prefix(t, n).contains(x),
    decreases n,
{
    let before = flatten_prefix(t, (n - 1) as nat);
    if i < n - 1 {
        lemma_block_in_flatten(t, (n - 1) as nat, i, x);
    }
    lemma_contains_joined(before, connection_block(t, t.connections[n - 1]), x);
}

/// Every connection is in the navigation list.
pub proof fn law_connection_shown(t: TreeModel, i: int)
    requires
        0 <= i < t.connections.len(),
    ensures
        flatten(t).contains(
            ItemModel::Uri {
                uri: t.connections[i].uri,
                name: t.connections[i].name,
                connected: t.connected_uri == Some(t.connections[i].uri),
            },
        ),
{
    let c = t.connections[i];
    let x = ItemModel::Uri { uri: c.uri, name: c.name, connected: t.connected_uri == Some(c.uri) };
    assert(connection_block(t, c)[0] == x);
    lemma_block_in_flatten(t, t.connections.len(), i, x);
}

/// Every database of a stored connection that is expanded and whose database
/// names are known is in the navigation list.
pub proof fn law_database_shown(t: TreeModel, i: int, j: int)
    requires
        0 <= i < t.connections.len(),
        shows_databases(t, t.connections[i].uri),
        0 <= j < t.database_map[t.connections[i].uri].len(),
    ensures
        flatten(t).contains(
            ItemModel::Database {
                uri: t.connections[i].uri,
                name: t.database_map[t.connections[i].uri][j],
            },
        ),
{
    let c = t.connections[i];
    let dbs = t.database_map[c.uri];
    let x = ItemModel::Database { uri: c.uri, name: dbs[j] };
    assert(database_block(t, c.uri, dbs[j])[0] == x);
    lemma_block_in_blocks(t, c.uri, dbs, dbs.len(), j, x);
    lemma_contains_joined(
        seq![
            ItemModel::Uri { uri: c.uri, name: c.name, connected: t.connected_uri == Some(c.uri) },
        ],
        database_blocks(t, c.uri, dbs, dbs.len()),
        x,
    );
    lemma_block_in_flatten(t, t.connections.len(), i, x);
}

/// Every collection of such a database is in the navigation list where the
/// database is expanded and its collection names are known.
pub proof fn law_collection_shown(t: TreeModel, i: int, j: int, k: int)
    requires
        0 <= i < t.connections.len(),
        shows_databases(t, t.connections[i].uri),
        0 <= j < t.database_map[t.connections[i].uri].len(),
        shows_collections(t, t.connections[i].uri, t.database_map[t.connections[i].uri][j]),
        0 <= k < t.collection_map[(
            t.connections[i].uri,
            t.database_map[t.connections[i].uri][j],
        )].len(),
    ensures
        flatten(t).contains(
            ItemModel::Collection {
                uri: t.connections[i].uri,
                db: t.database_map[t.connections[i].uri][j],
                name: t.collection_map[(
                    t.connections[i].uri,
                    t.database_map[t.connections[i].uri][j],
                )][k],
            },
        ),
{
    let c = t.connections[i];
    let dbs = t.database_map[c.uri];
    let names = t.collection_map[(c.uri, dbs[j])];
    let x = ItemModel::Collection { uri: c.uri, db: dbs[j], name: names[k] };
    assert(database_block(t, c.uri, dbs[j])[1 + k] == x);
    lemma_block_in_blocks(t, c.uri, dbs, dbs.len(), j, x);
    lemma_contains_joined(
        seq![
            ItemModel::Uri { uri: c.uri, name: c.name, connected: t.connected_uri == Some(c.uri) },
        ],
        database_blocks(t, c.uri, dbs, dbs.len()),
        x,
    );
    lemma_block_in_flatten(t, t.connections.len(), i, x);
}

/// Deriving the navigation list again changes nothing: the list depends on
/// what it is derived from and on nothing else.
pub proof fn law_rebuild_is_idempotent(s: StateModel)
    ensures
        flatten(tree_of(StateModel { tree_items: flatten(tree_of(s)), ..s })) == flatten(
            tree_of(s),
        ),
{
}

/// Toggling the expansion of one node twice gives back the navigation list
/// that was shown before.
pub proof fn law_toggle_twice(s: StateModel, node: ItemModel)
    ensures
        flatten(tree_of(toggle_step(toggle_step(s, node), node))) == flatten(tree_of(s)),
{
    let twice = toggle_step(toggle_step(s, node), node);
    assert(twice.expanded_uris =~= s.expanded_uris);
    assert(twice.expanded_dbs =~= s.expanded_dbs);
    assert(tree_of(twice) == tree_of(s));
}

} // verus!
