//! The fixed table of keys that are shown as symbols, the normalizer that
//! turns a raw key identifier into the text shown for it, and the set of
//! delimiter keys that end a word.
use vstd::prelude::*;

verus! {

/// One entry of the key table: a raw key identifier and the symbol shown for it.
pub struct KeyMapping {
    pub name: &'static str,
    pub symbol: &'static str,
}

/// The key table as (identifier, symbol) pairs, in lookup order.
pub open spec fn key_table() -> Seq<(Seq<char>, Seq<char>)> {
    seq![
        ("Backspace"@, "<BS>"@),
        ("Enter"@, "<ENTER>"@),
        ("Space"@, " "@),
        ("Tab"@, "<TAB>"@),
        ("Up"@, "<UP>"@),
        ("Down"@, "<DN>"@),
        ("Left"@, "<L>"@),
        ("Right"@, "<R>"@),
        ("Escape"@, "<Esc>"@),
        ("Delete"@, "<Del>"@),
        ("Home"@, "<HOME>"@),
        ("End"@, "<END>"@),
        ("LShift"@, "<LShft>"@),
        ("RShift"@, "<RShft>"@),
        ("LControl"@, "<LCtrL>"@),
        ("RControl"@, "<RCtrl>"@),
        ("LAlt"@, "<LAlt>"@),
        ("RAlt"@, "<RAlt>"@),
        ("Meta"@, "<M>"@),
    ]
}

/// The symbol of the first entry at or after `i` whose identifier is `k`.
pub open spec fn symbol_from(t: Seq<(Seq<char>, Seq<char>)>, k: Seq<char>, i: int) -> Option<Seq<char>>
    decreases t.len() - i,
{
    if i < 0 || i >= t.len() {
        None
    } else if t[i].0 == k {
        Some(t[i].1)
    } else {
        symbol_from(t, k, i + 1)
    }
}

/// The symbol that the key table gives for identifier `k`, if any.
pub open spec fn key_symbol(k: Seq<char>) -> Option<Seq<char>> {
    symbol_from(key_table(), k, 0)
}

/// The text shown for raw identifier `k`: a mapped key's symbol after one
/// separating space, any other identifier as it is.
pub open spec fn normalized(k: Seq<char>) -> Seq<char> {
    match key_symbol(k) {
        Some(s) => seq![' '] + s,
        None => k,
    }
}

/// Whether `k` names a key that ends a word.
pub open spec fn is_delimiter(k: Seq<char>) -> bool {
    k == "Space"@ || k == "Enter"@ || k == "Comma"@ || k == "Period"@
}

impl KeyMapping {
    pub open spec fn pair(self) -> (Seq<char>, Seq<char>) {
        (self.name@, self.symbol@)
    }
}

/// Whether two strings hold the same characters.
pub fn same_text(a: &str, b: &str) -> (r: bool)
    ensures
        r == (a@ == b@),
{
    let x = a.to_owned();
    let y = b.to_owned();
    x == y
}

/// The key table, in lookup order.
pub fn key_mappings() -> (r: Vec<KeyMapping>)
    ensures
        r@.map_values(|m: KeyMapping| m.pair()) == key_table(),
{
    let mut v: Vec<KeyMapping> = Vec::new();
    v.push(KeyMapping { name: "Backspace", symbol: "<BS>" });
    v.push(KeyMapping { name: "Enter", symbol: "<ENTER>" });
    v.push(KeyMapping { name: "Space", symbol: " " });
    v.push(KeyMapping { name: "Tab", symbol: "<TAB>" });
    v.push(KeyMapping { name: "Up", symbol: "<UP>" });
    v.push(KeyMapping { name: "Down", symbol: "<DN>" });
    v.push(KeyMapping { name: "Left", symbol: "<L>" });
    v.push(KeyMapping { name: "Right", symbol: "<R>" });
    v.push(KeyMapping { name: "Escape", symbol: "<Esc>" });
    v.push(KeyMapping { name: "Delete", symbol: "<Del>" });
    v.push(KeyMapping { name: "Home", symbol: "<HOME>" });
    v.push(KeyMapping { name: "End", symbol: "<END>" });
    v.push(KeyMapping { name: "LShift", symbol: "<LShft>" });
    v.push(KeyMapping { name: "RShift", symbol: "<RShft>" });
    v.push(KeyMapping { name: "LControl", symbol: "<LCtrL>" });
    v.push(KeyMapping { name: "RControl", symbol: "<RCtrl>" });
    v.push(KeyMapping { name: "LAlt", symbol: "<LAlt>" });
    v.push(KeyMapping { name: "RAlt", symbol: "<RAlt>" });
    v.push(KeyMapping { name: "Meta", symbol: "<M>" });
    assert(v@.map_values(|m: KeyMapping| m.pair()) =~= key_table());
    v
}

/// Looks `key` up in the key table: the symbol of its first entry with that
/// identifier, or `None` where the table has no such entry.
pub fn lookup_symbol(key: &str) -> (r: Option<&'static str>)
    ensures
        match r {
            Some(s) => key_symbol(key@) == Some(s@),
            None => key_symbol(key@).is_none(),
        },
        r.is_none() <==> (forall|i: int| 0 <= i < key_table().len() ==> key_table()[i].0 != key@),
{
    let table = key_mappings();
    let ghost t = key_table();
    let mut i: usize = 0;
    while i < table.len()
        invariant
            0 <= i <= table@.len(),
            table@.map_values(|m: KeyMapping| m.pair()) == t,
            t == key_table(),
            symbol_from(t, key@, 0) == symbol_from(t, key@, i as int),
            forall|j: int| 0 <= j < i ==> t[j].0 != key@,
        decreases table@.len() - i,
    {
        let m = &table[i];
        assert(t[i as int] == m.pair());
        if same_text(m.name, key) {
            return Some(m.symbol);
        }
        i += 1;
    }
    None
}

/// The normalizer: the text shown for raw key identifier `key`.
pub fn format_key(key: String) -> (r: String)
    ensures
        r@ == normalized(key@),
        (forall|i: int| 0 <= i < key_table().len() ==> key_table()[i].0 != key@) ==> r@ == key@,
        forall|i: int|
            0 <= i < key_table().len() && key_table()[i].0 == key@
                && (forall|j: int| 0 <= j < i ==> key_table()[j].0 != key@)
                ==> r@ == seq![' '] + key_table()[i].1,
{
    proof {
        assert forall|i: int|
            0 <= i < key_table().len() && key_table()[i].0 == key@
                && (forall|j: int| 0 <= j < i ==> key_table()[j].0 != key@)
            implies key_symbol(key@) == Some(key_table()[i].1) by {
            lemma_first_match(key_table(), key@, 0, i);
        }
    }
    match lookup_symbol(key.as_str()) {
        Some(s) => {
            proof {
                reveal_strlit(" ");
            }
            let lead = " ".to_owned();
            assert(lead@ =~= seq![' ']);
            lead.concat(s)
        },
        None => key,
    }
}

/// Searching from any index up to the first entry with identifier `k`, at
/// index `i`, finds that entry's symbol.
proof fn lemma_first_match(t: Seq<(Seq<char>, Seq<char>)>, k: Seq<char>, n: int, i: int)
    requires
        0 <= n <= i < t.len(),
        t[i].0 == k,
        forall|j: int| 0 <= j < i ==> t[j].0 != k,
    ensures
        symbol_from(t, k, n) == Some(t[i].1),
    decreases i - n,
{
    if n < i {
        lemma_first_match(t, k, n + 1, i);
    }
}

/// Whether raw key identifier `key` names a delimiter key.
pub fn is_delimiter_key(key: &str) -> (r: bool)
    ensures
        r == is_delimiter(key@),
{
    same_text(key, "Space") || same_text(key, "Enter") || same_text(key, "Comma") || same_text(
        key,
        "Period",
    )
}

} // verus!
