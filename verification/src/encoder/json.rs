//! The structured encoder: one self-describing record per event, holding
//! the millisecond timestamp, level, target, the optional source
//! coordinates, the message, and the fields as a key-to-value mapping.
//! Keys are unique in the mapping: a repeated key keeps the position of
//! its first occurrence and the value of its last.

use vstd::prelude::*;
use vstd::string::*;
use crate::Error;
use crate::config::JsonEncoderConfig;
use crate::level::spec_level_name;
use crate::render::{json_string, push_json_string, push_value_text, value_text};
use crate::snapshot::{FieldValue, Snapshot};
use crate::text::{dec_digits, dec_int, i64_to_string, str_equal, u32_to_string};

verus! {

/// Is some entry of the mapping keyed by `k`?
pub open spec fn has_key(d: Seq<(Seq<char>, FieldValue)>, k: Seq<char>) -> bool {
    exists|i: int| 0 <= i < d.len() && d[i].0 == k
}

/// The value the mapping holds for `k`; with unique keys, the one entry.
pub open spec fn lookup(d: Seq<(Seq<char>, FieldValue)>, k: Seq<char>) -> FieldValue
    decreases d.len(),
{
    if d.len() == 0 {
        arbitrary()
    } else if d.last().0 == k {
        d.last().1
    } else {
        lookup(d.drop_last(), k)
    }
}

/// No two entries of the mapping share a key.
pub open spec fn unique_keys(d: Seq<(Seq<char>, FieldValue)>) -> bool {
    forall|i: int, j: int| 0 <= i < j < d.len() ==> d[i].0 != d[j].0
}

/// The mapping a field list collapses to: one entry per key, at the
/// position of the key's first occurrence, holding the value of its last.
pub open spec fn dedup_fields(fields: Seq<(String, FieldValue)>) -> Seq<(Seq<char>, FieldValue)>
    decreases fields.len(),
{
    if fields.len() == 0 {
        Seq::empty()
    } else {
        let d = dedup_fields(fields.drop_last());
        let k = fields.last().0@;
        let v = fields.last().1;
        if has_key(d, k) {
            d.map(
                |i: int, p: (Seq<char>, FieldValue)|
                    if p.0 == k {
                        (k, v)
                    } else {
                        p
                    },
            )
        } else {
            d.push((k, v))
        }
    }
}

/// The text of one mapping entry.
pub open spec fn entry_text(p: (Seq<char>, FieldValue)) -> Seq<char> {
    json_string(p.0) + ":"@ + value_text(p.1)
}

/// The body of the `args` object: the entries in order, comma-separated.
pub open spec fn args_text(d: Seq<(Seq<char>, FieldValue)>) -> Seq<char>
    decreases d.len(),
{
    if d.len() == 0 {
        Seq::empty()
    } else if d.len() == 1 {
        entry_text(d.last())
    } else {
        args_text(d.drop_last()) + ","@ + entry_text(d.last())
    }
}

/// A JSON string, or `null` when the value is absent.
pub open spec fn opt_json_string(o: Option<String>) -> Seq<char> {
    match o {
        Some(s) => json_string(s@),
        None => "null"@,
    }
}

/// A bare number, or `null` when the value is absent.
pub open spec fn opt_json_line(o: Option<u32>) -> Seq<char> {
    match o {
        Some(l) => dec_digits(l as nat),
        None => "null"@,
    }
}

/// The complete structured record of one snapshot.
pub open spec fn json_record(snap: Snapshot) -> Seq<char> {
    "{\"timestamp\":"@ + dec_int(snap.timestamp_millis as int) + ",\"level\":"@ + json_string(
        spec_level_name(snap.level),
    ) + ",\"target\":"@ + json_string(snap.target@) + ",\"module\":"@ + opt_json_string(
        snap.module,
    ) + ",\"file\":"@ + opt_json_string(snap.file) + ",\"line\":"@ + opt_json_line(snap.line)
        + ",\"message\":"@ + json_string(snap.message@) + ",\"args\":{"@ + args_text(
        dedup_fields(snap.fields@),
    ) + "}}"@
}

/// The views of the collapsed mapping under construction.
pub open spec fn entry_views(v: Seq<(String, FieldValue)>) -> Seq<(Seq<char>, FieldValue)> {
    v.map_values(|p: (String, FieldValue)| (p.0@, p.1))
}

/// The index of the last field keyed by `k`; -1 when no field is.
pub open spec fn last_index_of_key(fields: Seq<(String, FieldValue)>, k: Seq<char>) -> int
    decreases fields.len(),
{
    if fields.len() == 0 {
        -1
    } else if fields.last().0@ == k {
        fields.len() - 1
    } else {
        last_index_of_key(fields.drop_last(), k)
    }
}

/// Is some field keyed by `k`?
pub open spec fn fields_have_key(fields: Seq<(String, FieldValue)>, k: Seq<char>) -> bool {
    exists|i: int| 0 <= i < fields.len() && fields[i].0@ == k
}

proof fn lemma_dedup_unique(fields: Seq<(String, FieldValue)>)
    ensures
        unique_keys(dedup_fields(fields)),
    decreases fields.len(),
{
    if fields.len() > 0 {
        lemma_dedup_unique(fields.drop_last());
        let d = dedup_fields(fields.drop_last());
        let k = fields.last().0@;
        let v = fields.last().1;
        if has_key(d, k) {
            let m = d.map(
                |i: int, p: (Seq<char>, FieldValue)|
                    if p.0 == k {
                        (k, v)
                    } else {
                        p
                    },
            );
            assert(forall|i: int| 0 <= i < m.len() ==> (#[trigger] m[i]).0 == d[i].0);
        } else {
            let m = d.push((k, v));
            assert(forall|i: int| 0 <= i < d.len() ==> (#[trigger] d[i]).0 != k);
        }
    }
}

proof fn lemma_dedup_has_key(fields: Seq<(String, FieldValue)>, k: Seq<char>)
    ensures
        has_key(dedup_fields(fields), k) <==> fields_have_key(fields, k),
    decreases fields.len(),
{
    if fields.len() > 0 {
        lemma_dedup_has_key(fields.drop_last(), k);
        let d = dedup_fields(fields.drop_last());
        let kk = fields.last().0@;
        let v = fields.last().1;
        assert(forall|i: int|
            0 <= i < fields.len() - 1 ==> #[trigger] fields.drop_last()[i] == fields[i]);
        if has_key(d, kk) {
            let m = d.map(
                |i: int, p: (Seq<char>, FieldValue)|
                    if p.0 == kk {
                        (kk, v)
                    } else {
                        p
                    },
            );
            assert(forall|i: int| 0 <= i < m.len() ==> (#[trigger] m[i]).0 == d[i].0);
            assert(has_key(m, k) <==> has_key(d, k)) by {
                if has_key(m, k) {
                    let i = choose|i: int| 0 <= i < m.len() && (#[trigger] m[i]).0 == k;
                    assert(d[i].0 == k);
                }
                if has_key(d, k) {
                    let i = choose|i: int| 0 <= i < d.len() && (#[trigger] d[i]).0 == k;
                    assert(m[i].0 == k);
                }
            };
            if fields_have_key(fields, k) {
                let i = choose|i: int| 0 <= i < fields.len() && (#[trigger] fields[i]).0@ == k;
                if i == fields.len() - 1 {
                    assert(k == kk);
                } else {
                    assert(fields.drop_last()[i].0@ == k);
                }
            }
        } else {
            let m = d.push((kk, v));
            assert(has_key(m, k) <==> (has_key(d, k) || k == kk)) by {
                if has_key(m, k) {
                    let i = choose|i: int| 0 <= i < m.len() && (#[trigger] m[i]).0 == k;
                    if i < d.len() {
                        assert(d[i].0 == k);
                    }
                }
                if has_key(d, k) {
                    let i = choose|i: int| 0 <= i < d.len() && (#[trigger] d[i]).0 == k;
                    assert(m[i].0 == k);
                }
                if k == kk {
                    assert(m[m.len() - 1].0 == k);
                }
            };
            if fields_have_key(fields, k) {
                let i = choose|i: int| 0 <= i < fields.len() && (#[trigger] fields[i]).0@ == k;
                if i < fields.len() - 1 {
                    assert(fields.drop_last()[i].0@ == k);
                }
            }
            if k == kk {
                assert(fields[fields.len() - 1].0@ == k);
            }
        }
    }
}

proof fn lemma_lookup_at(d: Seq<(Seq<char>, FieldValue)>, i: int)
    requires
        0 <= i < d.len(),
        forall|j: int| i < j < d.len() ==> (#[trigger] d[j]).0 != d[i].0,
    ensures
        lookup(d, d[i].0) == d[i].1,
    decreases d.len(),
{
    if i < d.len() - 1 {
        assert(d.last().0 != d[i].0);
        assert(forall|j: int|
            i < j < d.len() - 1 ==> (#[trigger] d.drop_last()[j]) == d[j]);
        lemma_lookup_at(d.drop_last(), i);
    }
}

/// In the structured mapping, a repeated key collapses to one entry
/// holding the value of its last occurrence, and no key appears twice.
pub proof fn lemma_mapping_last_occurrence_wins(fields: Seq<(String, FieldValue)>, k: Seq<char>)
    requires
        fields_have_key(fields, k),
    ensures
        unique_keys(dedup_fields(fields)),
        has_key(dedup_fields(fields), k),
        0 <= last_index_of_key(fields, k) < fields.len(),
        fields[last_index_of_key(fields, k)].0@ == k,
        forall|j: int|
            last_index_of_key(fields, k) < j < fields.len() ==> (#[trigger] fields[j]).0@ != k,
        lookup(dedup_fields(fields), k) == fields[last_index_of_key(fields, k)].1,
    decreases fields.len(),
{
    lemma_dedup_unique(fields);
    lemma_dedup_has_key(fields, k);
    let n = fields.len() as int;
    let kk = fields.last().0@;
    let v = fields.last().1;
    let d = dedup_fields(fields.drop_last());
    lemma_dedup_unique(fields.drop_last());
    lemma_dedup_has_key(fields.drop_last(), k);
    assert(forall|i: int| 0 <= i < n - 1 ==> #[trigger] fields.drop_last()[i] == fields[i]);
    if kk == k {
        assert(last_index_of_key(fields, k) == n - 1);
        if has_key(d, k) {
            let m = d.map(
                |i: int, p: (Seq<char>, FieldValue)|
                    if p.0 == k {
                        (k, v)
                    } else {
                        p
                    },
            );
            let i = choose|i: int| 0 <= i < d.len() && (#[trigger] d[i]).0 == k;
            assert(m[i] == (k, v));
            assert(forall|j: int| 0 <= j < m.len() ==> (#[trigger] m[j]).0 == d[j].0);
            assert(forall|j: int| i < j < m.len() ==> (#[trigger] m[j]).0 != m[i].0);
            lemma_lookup_at(m, i);
        } else {
            let m = d.push((k, v));
            assert(lookup(m, k) == v);
        }
    } else {
        let li = last_index_of_key(fields, k);
        assert(li == last_index_of_key(fields.drop_last(), k));
        assert(fields_have_key(fields.drop_last(), k)) by {
            let i = choose|i: int| 0 <= i < fields.len() && (#[trigger] fields[i]).0@ == k;
            assert(i != n - 1);
            assert(fields.drop_last()[i].0@ == k);
        };
        lemma_mapping_last_occurrence_wins(fields.drop_last(), k);
        assert(fields.drop_last()[li] == fields[li]);
        assert forall|j: int| li < j < n implies (#[trigger] fields[j]).0@ != k by {
            if j < n - 1 {
                assert(fields.drop_last()[j].0@ != k);
            } else {
                assert(fields[j].0@ == kk);
            }
        };
        let i = choose|i: int| 0 <= i < d.len() && (#[trigger] d[i]).0 == k;
        assert(forall|j: int| i < j < d.len() ==> (#[trigger] d[j]).0 != d[i].0);
        lemma_lookup_at(d, i);
        if has_key(d, kk) {
            let m = d.map(
                |q: int, p: (Seq<char>, FieldValue)|
                    if p.0 == kk {
                        (kk, v)
                    } else {
                        p
                    },
            );
            assert(m[i] == d[i]);
            assert(forall|j: int| 0 <= j < m.len() ==> (#[trigger] m[j]).0 == d[j].0);
            assert(forall|j: int| i < j < m.len() ==> (#[trigger] m[j]).0 != m[i].0);
            lemma_lookup_at(m, i);
        } else {
            let m = d.push((kk, v));
            assert(m.drop_last() =~= d);
            assert(lookup(m, k) == lookup(d, k));
        }
    }
}

/// The structured encoder; it is stateless.
#[derive(Default, Clone, Debug)]
pub struct JsonEncoder;

impl JsonEncoder {
    /// Builds the structured encoder; its configuration has no options,
    /// so this cannot fail.
    pub fn from_config(_config: &JsonEncoderConfig) -> (r: Result<JsonEncoder, Error>)
        ensures
            r is Ok,
    {
        Ok(JsonEncoder)
    }

    /// Renders one snapshot as its structured record, exactly as
    /// `json_record` describes it. The output has no trailing newline.
    pub fn encode(&self, snap: &Snapshot) -> (r: String)
        ensures
            r@ == json_record(*snap),
    {
        let mut collapsed: Vec<(String, FieldValue)> = Vec::new();
        proof {
            assert(entry_views(collapsed@) =~= dedup_fields(snap.fields@.take(0)));
        }
        let mut f: usize = 0;
        while f < snap.fields.len()
            invariant
                f <= snap.fields@.len(),
                entry_views(collapsed@) == dedup_fields(snap.fields@.take(f as int)),
                unique_keys(entry_views(collapsed@)),
            decreases snap.fields@.len() - f,
        {
            proof {
                assert(snap.fields@.take(f + 1).drop_last() =~= snap.fields@.take(f as int));
                assert(snap.fields@.take(f + 1).last() == snap.fields@[f as int]);
            }
            let key = snap.fields[f].0.clone();
            let value = snap.fields[f].1.clone();
            let ghost d0 = entry_views(collapsed@);
            let mut idx: usize = 0;
            let mut found = false;
            while idx < collapsed.len() && !found
                invariant
                    idx <= collapsed@.len(),
                    key@ == snap.fields@[f as int].0@,
                    !found ==> forall|i: int| 0 <= i < idx ==> entry_views(collapsed@)[i].0 != key@,
                    found ==> idx < collapsed@.len() && entry_views(collapsed@)[idx as int].0
                        == key@,
                decreases collapsed@.len() - idx + (if found {
                    0int
                } else {
                    1int
                }),
            {
                if str_equal(collapsed[idx].0.as_str(), key.as_str()) {
                    found = true;
                } else {
                    idx = idx + 1;
                }
            }
            if found {
                collapsed[idx].1 = value;
                proof {
                    assert(entry_views(collapsed@) =~= d0.map(
                        |i: int, p: (Seq<char>, FieldValue)|
                            if p.0 == key@ {
                                (key@, snap.fields@[f as int].1)
                            } else {
                                p
                            },
                    ));
                    assert(has_key(d0, key@));
                }
            } else {
                collapsed.push((key, value));
                proof {
                    assert(entry_views(collapsed@) =~= d0.push(
                        (snap.fields@[f as int].0@, snap.fields@[f as int].1),
                    ));
                    assert(!has_key(d0, key@));
                }
            }
            f = f + 1;
        }
        proof {
            assert(snap.fields@.take(snap.fields@.len() as int) =~= snap.fields@);
        }
        let mut out = String::new();
        out.append("{\"timestamp\":");
        let ts = i64_to_string(snap.timestamp_millis);
        out.append(ts.as_str());
        out.append(",\"level\":");
        push_json_string(&mut out, snap.level.name());
        out.append(",\"target\":");
        push_json_string(&mut out, snap.target.as_str());
        out.append(",\"module\":");
        match &snap.module {
            Some(m) => push_json_string(&mut out, m.as_str()),
            None => out.append("null"),
        }
        out.append(",\"file\":");
        match &snap.file {
            Some(x) => push_json_string(&mut out, x.as_str()),
            None => out.append("null"),
        }
        out.append(",\"line\":");
        match snap.line {
            Some(l) => {
                let t = u32_to_string(l);
                out.append(t.as_str());
            },
            None => out.append("null"),
        }
        out.append(",\"message\":");
        push_json_string(&mut out, snap.message.as_str());
        out.append(",\"args\":{");
        let ghost d = entry_views(collapsed@);
        let ghost before_args = out@;
        let mut e: usize = 0;
        while e < collapsed.len()
            invariant
                e <= collapsed@.len(),
                d == entry_views(collapsed@),
                out@ == before_args + args_text(d.take(e as int)),
            decreases collapsed@.len() - e,
        {
            proof {
                assert(d.take(e + 1).drop_last() =~= d.take(e as int));
                assert(d.take(e + 1).last() == d[e as int]);
                assert(d[e as int] == (collapsed@[e as int].0@, collapsed@[e as int].1));
            }
            if e > 0 {
                out.append(",");
            }
            push_json_string(&mut out, collapsed[e].0.as_str());
            out.append(":");
            push_value_text(&mut out, &collapsed[e].1);
            e = e + 1;
        }
        proof {
            assert(d.take(collapsed@.len() as int) =~= d);
        }
        out.append("}}");
        proof {
            assert(out@ =~= json_record(*snap));
        }
        out
    }
}

} // verus!
