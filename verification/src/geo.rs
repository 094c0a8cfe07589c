//! The GeoTIFF key sub-directory: a table of geospatial keys packed into
//! four linked tags, resolved against the ASCII and double parameter
//! blocks.

use vstd::prelude::*;

use crate::error::TiffError;

verus! {

/// The resolved value of one geo key.
#[derive(Debug, PartialEq)]
pub enum GeoKeyValue {
    /// A short value stored inline in the key entry.
    Short(u16),
    /// A piece of the ASCII parameter block, with a trailing `|` stripped.
    Ascii(String),
    /// One double from the double parameter block, as its IEEE bit
    /// pattern.
    Double(u64),
    /// Several doubles from the double parameter block, as IEEE bit
    /// patterns.
    Doubles(Vec<u64>),
    /// A key whose location code points at no known parameter block,
    /// kept raw: its tag location, count and value-or-offset words.
    Raw(u16, u16, u16),
}

/// The number of keys the directory header declares.
pub open spec fn geo_num_keys(dir: Seq<u16>) -> int {
    dir[3] as int
}

/// The four words of key entry `i`: key id, tag location, count, and
/// value-or-offset.
pub open spec fn geo_key_word(dir: Seq<u16>, i: int, w: int) -> u16 {
    dir[4 + 4 * i + w]
}

/// The slice of the ASCII parameter block a key refers to, with one
/// trailing `|` stripped.
pub open spec fn geo_ascii_value(ascii: Seq<char>, off: int, cnt: int) -> Seq<char> {
    let sub = ascii.subrange(off, off + cnt);
    if sub.len() > 0 && sub.last() == '|' {
        sub.drop_last()
    } else {
        sub
    }
}

/// Whether the directory header is valid and key entry `i` can be
/// resolved against the parameter blocks.
pub open spec fn geo_key_ok(
    dir: Seq<u16>,
    ascii: Option<Seq<char>>,
    doubles: Option<Seq<u64>>,
    i: int,
) -> bool {
    let loc = geo_key_word(dir, i, 1);
    let cnt = geo_key_word(dir, i, 2) as int;
    let off = geo_key_word(dir, i, 3) as int;
    if loc == 0 {
        true
    } else if loc == 34737 {
        ascii matches Some(a) && off + cnt <= a.len()
    } else if loc == 34736 {
        doubles matches Some(d) && off + cnt <= d.len() && cnt >= 1
    } else {
        true
    }
}

/// Whether `v` is the resolved value of key entry `i`.
pub open spec fn is_geo_key_value(
    dir: Seq<u16>,
    ascii: Option<Seq<char>>,
    doubles: Option<Seq<u64>>,
    i: int,
    v: GeoKeyValue,
) -> bool {
    let loc = geo_key_word(dir, i, 1);
    let cnt = geo_key_word(dir, i, 2) as int;
    let off = geo_key_word(dir, i, 3) as int;
    if loc == 0 {
        v == GeoKeyValue::Short(geo_key_word(dir, i, 3))
    } else if loc == 34737 {
        match v {
            GeoKeyValue::Ascii(s) => ascii matches Some(a) && s@ == geo_ascii_value(a, off, cnt),
            _ => false,
        }
    } else if loc == 34736 {
        if cnt == 1 {
            doubles matches Some(d) && v == GeoKeyValue::Double(d[off])
        } else {
            match v {
                GeoKeyValue::Doubles(ds) => doubles matches Some(d) && ds@ == d.subrange(
                    off,
                    off + cnt,
                ),
                _ => false,
            }
        }
    } else {
        v == GeoKeyValue::Raw(loc, geo_key_word(dir, i, 2), geo_key_word(dir, i, 3))
    }
}

/// Whether the whole directory can be parsed: the header words are valid,
/// the key table is complete, and every key resolves.
pub open spec fn geo_ok(dir: Seq<u16>, ascii: Option<Seq<char>>, doubles: Option<Seq<u64>>) -> bool {
    &&& dir.len() >= 4
    &&& dir[0] == 1
    &&& dir[1] == 1
    &&& dir.len() >= 4 + 4 * geo_num_keys(dir)
    &&& (forall|i: int| 0 <= i < geo_num_keys(dir) ==> geo_key_ok(dir, ascii, doubles, i))
}

/// A parsed GeoTIFF key directory: each key id with its resolved value,
/// in table order.
#[derive(Debug, PartialEq)]
pub struct GeoKeyDirectory {
    keys: Vec<(u16, GeoKeyValue)>,
}

impl GeoKeyDirectory {
    /// The resolved keys, in table order.
    pub closed spec fn keys_view(&self) -> Seq<(u16, GeoKeyValue)> {
        self.keys@
    }

    /// Parse a key directory out of the raw words of the directory tag and
    /// the two parameter blocks, where present.
    #[verifier::loop_isolation(false)]
    pub fn from_raw(
        dir: &Vec<u16>,
        ascii: Option<&String>,
        doubles: Option<&Vec<u64>>,
    ) -> (r: Result<GeoKeyDirectory, TiffError>)
        ensures
            ({
                let av = match ascii {
                    Some(a) => Some(a@),
                    None => None::<Seq<char>>,
                };
                let dv = match doubles {
                    Some(d) => Some(d@),
                    None => None::<Seq<u64>>,
                };
                &&& (r matches Ok(g) ==> {
                    &&& g.keys_view().len() == geo_num_keys(dir@)
                    &&& (forall|i: int|
                        0 <= i < geo_num_keys(dir@) ==> (#[trigger] g.keys_view()[i]).0
                            == geo_key_word(dir@, i, 0) && is_geo_key_value(
                            dir@,
                            av,
                            dv,
                            i,
                            g.keys_view()[i].1,
                        ))
                })
                &&& (r is Ok <==> geo_ok(dir@, av, dv))
                &&& (r is Err ==> r == Err::<GeoKeyDirectory, TiffError>(TiffError::Format(34735)))
            }),
    {
        let ghost av = match ascii {
            Some(a) => Some(a@),
            None => None::<Seq<char>>,
        };
        let ghost dv = match doubles {
            Some(d) => Some(d@),
            None => None::<Seq<u64>>,
        };
        if dir.len() < 4 {
            return Err(TiffError::Format(34735));
        }
        if dir[0] != 1 || dir[1] != 1 {
            return Err(TiffError::Format(34735));
        }
        let num_keys = dir[3] as usize;
        proof {
            assert((dir@.len() - 4) / 4 >= num_keys <==> dir@.len() >= 4 + 4 * num_keys)
                by (nonlinear_arith)
                requires
                    dir@.len() >= 4,
            ;
        }
        if (dir.len() - 4) / 4 < num_keys {
            return Err(TiffError::Format(34735));
        }
        let mut keys: Vec<(u16, GeoKeyValue)> = Vec::new();
        let mut i: usize = 0;
        while i < num_keys
            invariant
                i <= num_keys,
                keys@.len() == i,
                forall|j: int|
                    0 <= j < i ==> (#[trigger] keys@[j]).0 == geo_key_word(dir@, j, 0)
                        && is_geo_key_value(dir@, av, dv, j, keys@[j].1),
                forall|j: int| 0 <= j < i ==> geo_key_ok(dir@, av, dv, j),
            decreases num_keys - i,
        {
            let base = 4 + 4 * i;
            let key_id = dir[base];
            let loc = dir[base + 1];
            let cnt = dir[base + 2];
            let off = dir[base + 3];
            proof {
                assert(geo_key_word(dir@, i as int, 0) == key_id);
                assert(geo_key_word(dir@, i as int, 1) == loc);
                assert(geo_key_word(dir@, i as int, 2) == cnt);
                assert(geo_key_word(dir@, i as int, 3) == off);
            }
            let value: GeoKeyValue = if loc == 0 {
                GeoKeyValue::Short(off)
            } else if loc == 34737 {
                match ascii {
                    Some(a) => {
                        let alen = a.as_str().unicode_len();
                        if off as usize > alen || cnt as usize > alen - off as usize {
                            proof {
                                assert(!geo_key_ok(dir@, av, dv, i as int));
                            }
                            return Err(TiffError::Format(34735));
                        }
                        let sub = a.as_str().substring_char(off as usize, off as usize + cnt
                            as usize);
                        let stripped = if sub.unicode_len() > 0 && sub.get_char(
                            sub.unicode_len() - 1,
                        ) == '|' {
                            sub.substring_char(0, sub.unicode_len() - 1)
                        } else {
                            sub
                        };
                        proof {
                            assert(stripped@ =~= geo_ascii_value(a@, off as int, cnt as int));
                        }
                        GeoKeyValue::Ascii(stripped.to_owned())
                    },
                    None => {
                        proof {
                            assert(!geo_key_ok(dir@, av, dv, i as int));
                        }
                        return Err(TiffError::Format(34735));
                    },
                }
            } else if loc == 34736 {
                match doubles {
                    Some(d) => {
                        if off as usize > d.len() || cnt as usize > d.len() - off as usize
                            || cnt == 0 {
                            proof {
                                assert(!geo_key_ok(dir@, av, dv, i as int));
                            }
                            return Err(TiffError::Format(34735));
                        }
                        if cnt == 1 {
                            GeoKeyValue::Double(d[off as usize])
                        } else {
                            let mut ds: Vec<u64> = Vec::new();
                            let mut k: usize = off as usize;
                            let end: usize = off as usize + cnt as usize;
                            while k < end
                                invariant
                                    off as usize <= k <= end,
                                    ds@ == d@.subrange(off as int, k as int),
                                decreases end - k,
                            {
                                ds.push(d[k]);
                                k = k + 1;
                            }
                            proof {
                                assert(ds@ =~= d@.subrange(off as int, off + cnt));
                            }
                            GeoKeyValue::Doubles(ds)
                        }
                    },
                    None => {
                        proof {
                            assert(!geo_key_ok(dir@, av, dv, i as int));
                        }
                        return Err(TiffError::Format(34735));
                    },
                }
            } else {
                GeoKeyValue::Raw(loc, cnt, off)
            };
            keys.push((key_id, value));
            i = i + 1;
        }
        Ok(GeoKeyDirectory { keys })
    }

    /// The number of keys in the directory.
    pub fn len(&self) -> (r: usize)
        ensures
            r == self.keys_view().len(),
    {
        self.keys.len()
    }

    /// The key id and resolved value at `idx`, in table order.
    pub fn key_at(&self, idx: usize) -> (r: &(u16, GeoKeyValue))
        requires
            idx < self.keys_view().len(),
        ensures
            *r == self.keys_view()[idx as int],
    {
        &self.keys[idx]
    }

    /// The resolved value of the last key with the given id, if any.
    #[verifier::loop_isolation(false)]
    pub fn get(&self, key_id: u16) -> (r: Option<&GeoKeyValue>)
        ensures
            (r matches Some(v) ==> exists|i: int|
                0 <= i < self.keys_view().len() && (#[trigger] self.keys_view()[i]).0 == key_id
                    && self.keys_view()[i].1 == *v),
            r is None ==> forall|i: int|
                0 <= i < self.keys_view().len() ==> (#[trigger] self.keys_view()[i]).0 != key_id,
    {
        let n = self.keys.len();
        let mut j: usize = n;
        while j > 0
            invariant
                j <= n,
                forall|i: int| j <= i < n ==> (#[trigger] self.keys@[i]).0 != key_id,
            decreases j,
        {
            j = j - 1;
            if self.keys[j].0 == key_id {
                proof {
                    assert((#[trigger] self.keys_view()[j as int]).0 == key_id);
                }
                return Some(&self.keys[j].1);
            }
        }
        None
    }
}

} // verus!
