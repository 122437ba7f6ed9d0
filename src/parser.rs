use vstd::prelude::*;

use crate::block::Block;
use crate::cell_object::{name_of, object_text, order_of, CELLObject, ObjectView};
use crate::keyword_value::{KeywordValue, SingleKeyword};
use crate::text::{join, join_strings, lower_of, lowercase, strs_view};

verus! {

/// A top-level capture of a document, as the grammar engine classified it.
pub enum CellPair {
    /// `%BLOCK name` ... `%ENDBLOCK name`, with the lines in between.
    Block { name: String, values: Vec<String> },
    /// `name : value`.
    KvPair { name: String, value: String },
    /// A keyword alone on its line.
    SingleKeywords { name: String },
}

/// The name that a capture declares, as written.
pub open spec fn pair_name(p: CellPair) -> Seq<char> {
    match p {
        CellPair::Block { name, .. } => name@,
        CellPair::KvPair { name, .. } => name@,
        CellPair::SingleKeywords { name } => name@,
    }
}

/// The element that the capture at position `i` of a document becomes.
pub open spec fn pair_object(p: CellPair, i: usize) -> ObjectView {
    match p {
        CellPair::Block { name, values } => ObjectView::Block {
            order: i,
            name: name@,
            values: strs_view(values@),
        },
        CellPair::KvPair { name, value } => ObjectView::KeywordValue {
            order: i,
            name: name@,
            value: value@,
        },
        CellPair::SingleKeywords { name } => ObjectView::SingleKeyword { order: i, name: name@ },
    }
}

/// The lookup table that a sequence of captures describes: each capture,
/// numbered by its position, under its lower-cased name; a later capture
/// replaces an earlier one of the same key.
pub open spec fn doc_of(ps: Seq<CellPair>) -> Map<Seq<char>, ObjectView>
    decreases ps.len(),
{
    if ps.len() == 0 {
        Map::empty()
    } else {
        let i = (ps.len() - 1) as int;
        doc_of(ps.drop_last()).insert(lower_of(pair_name(ps[i])), pair_object(ps[i], i as usize))
    }
}

/// The table that a sequence of (key, element) entries describes, a later
/// entry replacing an earlier one of the same key.
pub open spec fn entries_map(s: Seq<(Seq<char>, ObjectView)>) -> Map<Seq<char>, ObjectView>
    decreases s.len(),
{
    if s.len() == 0 {
        Map::empty()
    } else {
        entries_map(s.drop_last()).insert(s.last().0, s.last().1)
    }
}

/// No two entries share a key.
pub open spec fn keys_unique(s: Seq<(Seq<char>, ObjectView)>) -> bool {
    forall|i: int, j: int| 0 <= i < s.len() && 0 <= j < s.len() && i != j ==> s[i].0 != s[j].0
}

/// The elements of a sequence, seen as their contents.
pub open spec fn objs_view(s: Seq<CELLObject>) -> Seq<ObjectView> {
    s.map_values(|o: CELLObject| o@)
}

/// Places `x` in `s` after every element whose order is not larger.
pub open spec fn insert_by_order(s: Seq<ObjectView>, x: ObjectView) -> Seq<ObjectView>
    decreases s.len(),
{
    if s.len() == 0 {
        seq![x]
    } else if order_of(x) < order_of(s.last()) {
        insert_by_order(s.drop_last(), x).push(s.last())
    } else {
        s.push(x)
    }
}

/// `s` sorted by ascending order, elements of equal order kept as they came.
pub open spec fn sort_by_order(s: Seq<ObjectView>) -> Seq<ObjectView>
    decreases s.len(),
{
    if s.len() == 0 {
        Seq::empty()
    } else {
        insert_by_order(sort_by_order(s.drop_last()), s.last())
    }
}

/// Each element's order is no larger than the next one's.
pub open spec fn sorted_by_order(s: Seq<ObjectView>) -> bool {
    forall|i: int, j: int| 0 <= i < j < s.len() ==> order_of(s[i]) <= order_of(s[j])
}


/// A key is in the table exactly when some entry has it.
proof fn lemma_entries_map_dom(s: Seq<(Seq<char>, ObjectView)>, k: Seq<char>)
    ensures
        entries_map(s).contains_key(k) <==> exists|i: int| 0 <= i < s.len() && s[i].0 == k,
    decreases s.len(),
{
    if s.len() > 0 {
        lemma_entries_map_dom(s.drop_last(), k);
        if entries_map(s).contains_key(k) && s.last().0 != k {
            let i = choose|i: int| 0 <= i < s.len() - 1 && s.drop_last()[i].0 == k;
            assert(s[i].0 == k);
        }
        if exists|i: int| 0 <= i < s.len() && s[i].0 == k {
            let i = choose|i: int| 0 <= i < s.len() && s[i].0 == k;
            if i < s.len() - 1 {
                assert(s.drop_last()[i].0 == k);
            }
        }
    }
}

/// With unique keys, each entry is what the table holds under its key.
proof fn lemma_entries_map_index(s: Seq<(Seq<char>, ObjectView)>, i: int)
    requires
        keys_unique(s),
        0 <= i < s.len(),
    ensures
        entries_map(s).contains_key(s[i].0),
        entries_map(s)[s[i].0] == s[i].1,
    decreases s.len(),
{
    if i < s.len() - 1 {
        let t = s.drop_last();
        assert(keys_unique(t));
        lemma_entries_map_index(t, i);
        assert(s[i].0 != s.last().0);
    }
}

/// With unique keys, replacing the element of the entry that has key `k`
/// replaces what the table holds under `k`.
proof fn lemma_entries_map_update(s: Seq<(Seq<char>, ObjectView)>, i: int, v: ObjectView)
    requires
        keys_unique(s),
        0 <= i < s.len(),
    ensures
        entries_map(s.update(i, (s[i].0, v))) == entries_map(s).insert(s[i].0, v),
    decreases s.len(),
{
    let k = s[i].0;
    let u = s.update(i, (k, v));
    if i == s.len() - 1 {
        assert(u.drop_last() =~= s.drop_last());
        assert(entries_map(u) =~= entries_map(s).insert(k, v));
    } else {
        let t = s.drop_last();
        assert(keys_unique(t));
        lemma_entries_map_update(t, i, v);
        assert(u.drop_last() =~= t.update(i, (k, v)));
        assert(s.last().0 != k);
        assert(entries_map(u) =~= entries_map(s).insert(k, v));
    }
}


/// The texts of a sequence of elements.
pub open spec fn texts(s: Seq<ObjectView>) -> Seq<Seq<char>> {
    s.map_values(|o: ObjectView| object_text(o))
}

/// The parser of documents: it turns captures into a lookup table and the
/// table back into an ordered document.
pub struct CELLParser;

/// A document as a table from lower-cased names to elements.
pub struct ParsedCellDoc {
    entries: Vec<(String, CELLObject)>,
}

impl ParsedCellDoc {
    /// The entries of the table, key and element, in the order in which
    /// their keys first came in.
    pub closed spec fn entries_view(&self) -> Seq<(Seq<char>, ObjectView)> {
        self.entries@.map_values(|e: (String, CELLObject)| (e.0@, e.1@))
    }

    /// The elements of the table, in the order of `entries_view`.
    pub open spec fn objects(&self) -> Seq<ObjectView> {
        self.entries_view().map_values(|e: (Seq<char>, ObjectView)| e.1)
    }

    /// Keys are unique, and each is the lower-cased name of its element.
    pub open spec fn wf(&self) -> bool {
        &&& keys_unique(self.entries_view())
        &&& forall|j: int|
            0 <= j < self.entries_view().len() ==> #[trigger] self.entries_view()[j].0 == lower_of(
                name_of(self.entries_view()[j].1),
            )
    }
}

impl View for ParsedCellDoc {
    type V = Map<Seq<char>, ObjectView>;

    open spec fn view(&self) -> Map<Seq<char>, ObjectView> {
        entries_map(self.entries_view())
    }
}


impl ParsedCellDoc {
    /// An empty table.
    pub fn new() -> (r: Self)
        ensures
            r.wf(),
            r@ == Map::<Seq<char>, ObjectView>::empty(),
            r.entries_view().len() == 0,
    {
        let r = ParsedCellDoc { entries: Vec::new() };
        assert(r.entries_view() =~= Seq::empty());
        r
    }

    /// The number of keys in the table.
    pub fn len(&self) -> (r: usize)
        requires
            self.wf(),
        ensures
            r == self@.len(),
            r == self.entries_view().len(),
    {
        proof {
            self.lemma_dom_len();
        }
        self.entries.len()
    }

    /// With unique keys the table has one key per entry.
    proof fn lemma_dom_len(&self)
        requires
            self.wf(),
        ensures
            self@.dom().len() == self.entries_view().len(),
            self@.dom() =~= self.entries_view().map_values(|e: (Seq<char>, ObjectView)| e.0).to_set(),
        decreases self.entries_view().len(),
    {
        let s = self.entries_view();
        let ks = s.map_values(|e: (Seq<char>, ObjectView)| e.0);
        assert forall|k: Seq<char>| self@.dom().contains(k) <==> ks.to_set().contains(k) by {
            lemma_entries_map_dom(s, k);
            if self@.dom().contains(k) {
                let i = choose|i: int| 0 <= i < s.len() && s[i].0 == k;
                assert(ks[i] == k);
            }
            if ks.to_set().contains(k) {
                let i = choose|i: int| 0 <= i < ks.len() && ks[i] == k;
                assert(s[i].0 == k);
            }
        }
        assert(ks.no_duplicates());
        ks.unique_seq_to_set();
        assert(self@.dom() =~= ks.to_set());
        assert(ks.len() == s.len());
    }

    /// The position of the entry whose key is `key`, if one has it.
    fn find(&self, key: &String) -> (r: Option<usize>)
        ensures
            r matches Some(i) ==> i < self.entries_view().len() && self.entries_view()[i as int].0 == key@,
            r is None ==> forall|i: int| 0 <= i < self.entries_view().len() ==> self.entries_view()[i].0 != key@,
    {
        let mut i: usize = 0;
        while i < self.entries.len()
            invariant
                i <= self.entries.len(),
                forall|j: int| 0 <= j < i ==> self.entries_view()[j].0 != key@,
            decreases self.entries.len() - i,
        {
            if self.entries[i].0 == *key {
                return Some(i);
            }
            i = i + 1;
        }
        None
    }

    /// Puts `obj` in the table under its lower-cased name, in place of what
    /// was there.
    pub fn insert(&mut self, obj: CELLObject)
        requires
            old(self).wf(),
        ensures
            final(self).wf(),
            final(self)@ == old(self)@.insert(lower_of(name_of(obj@)), obj@),
            !old(self)@.contains_key(lower_of(name_of(obj@))) ==> final(self).entries_view()
                == old(self).entries_view().push((lower_of(name_of(obj@)), obj@)),
    {
        let key = match &obj {
            CELLObject::Block(b) => lowercase(b.name.as_str()),
            CELLObject::KeywordValue(kv) => lowercase(kv.name.as_str()),
            CELLObject::SingleKeyword(k) => lowercase(k.name.as_str()),
        };
        let ghost k = key@;
        let ghost v = obj@;
        let ghost s = self.entries_view();
        proof {
            lemma_entries_map_dom(s, k);
        }
        match self.find(&key) {
            Some(i) => {
                self.entries.set(i, (key, obj));
                proof {
                    assert(self.entries_view() =~= s.update(i as int, (k, v)));
                    lemma_entries_map_update(s, i as int, v);
                }
            },
            None => {
                self.entries.push((key, obj));
                proof {
                    assert(self.entries_view() =~= s.push((k, v)));
                    assert(self.entries_view().drop_last() =~= s);
                }
            },
        }
    }

    /// The element stored under `name`, in any casing.
    pub fn get(&self, name: &str) -> (r: Option<&CELLObject>)
        requires
            self.wf(),
        ensures
            r is Some <==> self@.contains_key(lower_of(name@)),
            r matches Some(o) ==> o@ == self@[lower_of(name@)],
    {
        let key = lowercase(name);
        proof {
            lemma_entries_map_dom(self.entries_view(), key@);
        }
        match self.find(&key) {
            Some(i) => {
                proof {
                    lemma_entries_map_index(self.entries_view(), i as int);
                }
                Some(&self.entries[i].1)
            },
            None => None,
        }
    }
}

/// The elements that a sequence of captures declares, each numbered by its
/// position, before any is replaced by a later one of the same key.
pub open spec fn declared(ps: Seq<CellPair>) -> Seq<ObjectView> {
    Seq::new(ps.len(), |i: int| pair_object(ps[i], i as usize))
}

/// No two captures share a lower-cased name.
pub open spec fn names_distinct(ps: Seq<CellPair>) -> bool {
    forall|i: int, j: int|
        0 <= i < ps.len() && 0 <= j < ps.len() && i != j ==> lower_of(pair_name(ps[i]))
            != lower_of(pair_name(ps[j]))
}

/// The element that a capture becomes, at position `order`.
fn object_from_pair(pair: &CellPair, order: usize) -> (r: CELLObject)
    ensures
        r@ == pair_object(*pair, order),
{
    match pair {
        CellPair::Block { .. } => CELLObject::Block(Block::from_pair(pair, order)),
        CellPair::KvPair { name, value } => CELLObject::KeywordValue(
            KeywordValue::new(order, name.clone(), value.clone()),
        ),
        CellPair::SingleKeywords { name } => CELLObject::SingleKeyword(
            SingleKeyword::new(order, name.clone()),
        ),
    }
}

impl Block {
    /// The block that a block capture becomes, at position `order`.
    pub fn from_pair(pair: &CellPair, order: usize) -> (r: Block)
        requires
            pair is Block,
        ensures
            CELLObject::Block(r)@ == pair_object(*pair, order),
    {
        match pair {
            CellPair::Block { name, values } => {
                let lines = values.clone();
                assert(lines@ =~= values@);
                Block::new(order, name.clone(), lines)
            },
            _ => {
                assert(false);
                Block::new(order, String::new(), Vec::new())
            },
        }
    }
}

/// Places `x` in `v` after every element whose order is not larger.
fn insert_sorted(v: &mut Vec<CELLObject>, x: CELLObject)
    ensures
        objs_view(final(v)@) == insert_by_order(objs_view(old(v)@), x@),
    decreases old(v).len(),
{
    let ghost s = objs_view(v@);
    if v.len() == 0 {
        v.push(x);
        assert(objs_view(v@) =~= seq![x@]);
    } else if x.order() < v[v.len() - 1].order() {
        let last = v.pop().unwrap();
        assert(objs_view(v@) =~= s.drop_last());
        insert_sorted(v, x);
        let ghost mid = objs_view(v@);
        v.push(last);
        assert(objs_view(v@) =~= mid.push(last@));
    } else {
        v.push(x);
        assert(objs_view(v@) =~= s.push(x@));
    }
}

/// The elements of a well-formed table are exactly what it holds: one per
/// key, each under the lower-cased form of its own name.
pub proof fn lemma_table_elements(doc: &ParsedCellDoc)
    requires
        doc.wf(),
    ensures
        doc.objects().len() == doc@.len(),
        forall|i: int|
            0 <= i < doc.objects().len() ==> doc@.contains_key(lower_of(name_of(#[trigger] doc.objects()[i])))
                && doc@[lower_of(name_of(doc.objects()[i]))] == doc.objects()[i],
        forall|k: Seq<char>|
            #[trigger] doc@.contains_key(k) ==> exists|i: int|
                0 <= i < doc.objects().len() && doc.objects()[i] == doc@[k],
{
    let s = doc.entries_view();
    doc.lemma_dom_len();
    assert forall|i: int| 0 <= i < doc.objects().len() implies doc@.contains_key(
        lower_of(name_of(#[trigger] doc.objects()[i])),
    ) && doc@[lower_of(name_of(doc.objects()[i]))] == doc.objects()[i] by {
        assert(s[i].0 == lower_of(name_of(s[i].1)));
        lemma_entries_map_index(s, i);
    }
    assert forall|k: Seq<char>| #[trigger] doc@.contains_key(k) implies exists|i: int|
        0 <= i < doc.objects().len() && doc.objects()[i] == doc@[k] by {
        lemma_entries_map_dom(s, k);
        let i = choose|i: int| 0 <= i < s.len() && s[i].0 == k;
        lemma_entries_map_index(s, i);
        assert(doc.objects()[i] == s[i].1);
    }
}

/// The elements of a table sorted by ascending order.
fn sorted_objects(doc: &ParsedCellDoc) -> (r: Vec<CELLObject>)
    ensures
        objs_view(r@) == sort_by_order(doc.objects()),
{
    let mut r: Vec<CELLObject> = Vec::new();
    let mut i: usize = 0;
    assert(doc.objects().take(0) =~= Seq::empty());
    assert(objs_view(r@) =~= Seq::empty());
    while i < doc.entries.len()
        invariant
            i <= doc.entries.len(),
            doc.objects().len() == doc.entries.len(),
            objs_view(r@) == sort_by_order(doc.objects().take(i as int)),
        decreases doc.entries.len() - i,
    {
        let x = doc.entries[i].1.duplicate();
        assert(doc.objects()[i as int] == doc.entries@[i as int].1@);
        insert_sorted(&mut r, x);
        assert(doc.objects().take(i + 1).drop_last() =~= doc.objects().take(i as int));
        i = i + 1;
    }
    assert(doc.objects().take(i as int) =~= doc.objects());
    r
}

/// The elements of a table of a block-oriented document, in declaration
/// order.
pub struct OrderedCellDoc(Vec<CELLObject>);

/// The elements of a table of a flat keyword document, in declaration order.
pub struct OrderedParamDoc(Vec<CELLObject>);

impl View for OrderedCellDoc {
    type V = Seq<ObjectView>;

    closed spec fn view(&self) -> Seq<ObjectView> {
        objs_view(self.0@)
    }
}

impl View for OrderedParamDoc {
    type V = Seq<ObjectView>;

    closed spec fn view(&self) -> Seq<ObjectView> {
        objs_view(self.0@)
    }
}

/// Joins the texts of `objs` with `sep` between each two neighbours.
fn join_objects(objs: &Vec<CELLObject>, sep: &str) -> (r: String)
    ensures
        r@ == join(texts(objs_view(objs@)), sep@),
{
    let mut parts: Vec<String> = Vec::new();
    let mut i: usize = 0;
    while i < objs.len()
        invariant
            i <= objs.len(),
            strs_view(parts@) == texts(objs_view(objs@)).take(i as int),
        decreases objs.len() - i,
    {
        let t = objs[i].to_string();
        let ghost prev = strs_view(parts@);
        parts.push(t);
        assert(strs_view(parts@) =~= prev.push(texts(objs_view(objs@))[i as int]));
        assert(strs_view(parts@) =~= texts(objs_view(objs@)).take(i + 1));
        i = i + 1;
    }
    assert(texts(objs_view(objs@)).take(i as int) =~= texts(objs_view(objs@)));
    join_strings(&parts, sep)
}

impl OrderedCellDoc {
    /// The document as text: its elements' texts with a blank line between
    /// each two.
    pub fn to_string(&self) -> (r: String)
        ensures
            r@ == join(texts(self@), "\n\n"@),
    {
        join_objects(&self.0, "\n\n")
    }
}

impl OrderedParamDoc {
    /// The document as text: its elements' texts, one after another on
    /// their own lines.
    pub fn to_string(&self) -> (r: String)
        ensures
            r@ == join(texts(self@), "\n"@),
    {
        join_objects(&self.0, "\n")
    }
}

impl CELLParser {
    /// The table of a document from its captures: each capture becomes an
    /// element numbered by its position and is stored under its lower-cased
    /// name, a later one replacing an earlier one of the same key.
    pub fn cell_doc_map(pairs: Vec<CellPair>) -> (r: ParsedCellDoc)
        ensures
            r.wf(),
            r@ == doc_of(pairs@),
            names_distinct(pairs@) ==> r.objects() == declared(pairs@),
    {
        let mut doc = ParsedCellDoc::new();
        let mut i: usize = 0;
        assert(pairs@.take(0) =~= Seq::<CellPair>::empty());
        assert(doc@ =~= doc_of(pairs@.take(0)));
        assert(doc.objects() =~= declared(pairs@.take(0)));
        while i < pairs.len()
            invariant
                i <= pairs.len(),
                doc.wf(),
                doc@ == doc_of(pairs@.take(i as int)),
                names_distinct(pairs@) ==> doc.objects() == declared(pairs@.take(i as int)),
            decreases pairs.len() - i,
        {
            let obj = object_from_pair(&pairs[i], i);
            let ghost pre = pairs@.take(i as int);
            let ghost post = pairs@.take(i + 1);
            assert(post.drop_last() =~= pre);
            assert(name_of(obj@) == pair_name(pairs@[i as int]));
            let ghost old_doc = doc;
            proof {
                if names_distinct(pairs@) {
                    let k = lower_of(pair_name(pairs@[i as int]));
                    lemma_entries_map_dom(old_doc.entries_view(), k);
                    if old_doc@.contains_key(k) {
                        let j = choose|j: int|
                            0 <= j < old_doc.entries_view().len() && old_doc.entries_view()[j].0
                                == k;
                        lemma_entries_map_index(old_doc.entries_view(), j);
                        assert(old_doc.objects()[j] == old_doc.entries_view()[j].1);
                        assert(old_doc.objects()[j] == declared(pre)[j]);
                        assert(pre[j] == pairs@[j]);
                        assert(lower_of(pair_name(pairs@[j])) == k);
                    }
                }
            }
            doc.insert(obj);
            proof {
                if names_distinct(pairs@) {
                    let k = lower_of(pair_name(pairs@[i as int]));
                    assert(!old_doc@.contains_key(k));
                    assert(doc.entries_view() == old_doc.entries_view().push((k, obj@)));
                    assert(doc.objects() =~= old_doc.objects().push(obj@));
                    assert(declared(post) =~= declared(pre).push(obj@));
                    assert(doc.objects() =~= declared(post));
                }
            }
            i = i + 1;
        }
        assert(pairs@.take(i as int) =~= pairs@);
        doc
    }

    /// The elements of a block-oriented document's table in declaration
    /// order.
    pub fn ordered_cell_doc(cell_doc_map: &ParsedCellDoc) -> (r: OrderedCellDoc)
        ensures
            r@ == sort_by_order(cell_doc_map.objects()),
    {
        OrderedCellDoc(sorted_objects(cell_doc_map))
    }

    /// The elements of a flat keyword document's table in declaration order.
    pub fn ordered_param_doc(cell_doc_map: &ParsedCellDoc) -> (r: OrderedParamDoc)
        ensures
            r@ == sort_by_order(cell_doc_map.objects()),
    {
        OrderedParamDoc(sorted_objects(cell_doc_map))
    }
}

} // verus!
