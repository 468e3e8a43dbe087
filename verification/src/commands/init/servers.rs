//! The tool servers of a repository: what stands in `.mcp.json`.

use crate::commands::init::manifest::FileRead;
use crate::json_object;
use crate::json_object::{
    copy_value, empty_object, has_key, keys_of, make_value, parse_object, print_object, put_value,
    take_object, Json, Parts, Taken,
};
use crate::text;
use crate::text::own;
use vstd::prelude::*;

verus! {

/// The key of the servers.
pub const SERVERS: &'static str = "mcpServers";

/// The servers of a configuration; `None` where something else stands there.
pub open spec fn servers_of(config: Map<Seq<char>, Json>) -> Option<Map<Seq<char>, Json>> {
    if !config.contains_key(SERVERS@) {
        Some(Map::empty())
    } else {
        match config[SERVERS@] {
            Json::Object(m) => Some(m),
            _ => None,
        }
    }
}

/// A configuration with servers put in. Everything else stays.
pub open spec fn merged(
    config: Map<Seq<char>, Json>,
    servers: Map<Seq<char>, Json>,
) -> Map<Seq<char>, Json> {
    config.insert(SERVERS@, Json::Object(servers_of(config)->0.union_prefer_right(servers)))
}

/// What is said of a server that is put in place of another.
pub open spec fn overwriting(key: Seq<char>) -> Seq<char> {
    "Warning: overwriting existing mcpServers entry \""@ + key + "\" with crosslink default"@
}

/// What is said of the first `n` keys: one warning for each that is there already.
pub open spec fn warnings(
    keys: Seq<Seq<char>>,
    there: Map<Seq<char>, Json>,
    n: nat,
) -> Seq<Seq<char>>
    decreases n,
{
    if n == 0 {
        Seq::empty()
    } else {
        let before = warnings(keys, there, (n - 1) as nat);
        if there.contains_key(keys[n - 1]) {
            before.push(overwriting(keys[n - 1]))
        } else {
            before
        }
    }
}

/// Whether the warnings are those of servers put in beside the ones that are there: one
/// for each that is there already, in the order of the keys.
pub open spec fn warns_of(
    said: Seq<Seq<char>>,
    servers: Map<Seq<char>, Json>,
    there: Map<Seq<char>, Json>,
) -> bool {
    exists|keys: Seq<Seq<char>>| #[trigger]
        json_object::is_key_list(keys, servers) && said == warnings(keys, there, keys.len())
}

/// The servers that are shipped, or what is wrong with them.
pub open spec fn shipped(embedded: Seq<char>) -> Result<Map<Seq<char>, Json>, Seq<char>> {
    if json_object::json_error(embedded) is Some {
        Err("embedded MCP_JSON is not valid JSON — this is a build defect"@)
    } else {
        match json_object::json_object(embedded) {
            Some(config) => if config.contains_key(SERVERS@) && config[SERVERS@] is Object {
                Ok(config[SERVERS@]->Object_0)
            } else {
                Err("embedded MCP_JSON missing mcpServers object — this is a build defect"@)
            },
            None => Err("embedded MCP_JSON missing mcpServers object — this is a build defect"@),
        }
    }
}

/// The configuration that is there, or why it is not touched.
pub open spec fn existing(path: Seq<char>, read: FileRead) -> Result<Map<Seq<char>, Json>, Seq<char>> {
    match read {
        FileRead::Missing => Ok(Map::empty()),
        FileRead::Unreadable => Err("Failed to read existing .mcp.json"@),
        FileRead::Content(raw) => if json_object::json_error(raw@) is Some {
            Err(
                "Existing .mcp.json at "@ + path
                    + " contains invalid JSON — refusing to overwrite. Fix or remove it, then retry."@,
            )
        } else {
            match json_object::json_object(raw@) {
                Some(config) => if servers_of(config) is Some {
                    Ok(config)
                } else {
                    Err(
                        "Existing .mcp.json has a non-object mcpServers value — refusing to overwrite. Fix or remove it, then retry."@,
                    )
                },
                None => Err(
                    "Existing .mcp.json at "@ + path
                        + " is not a JSON object — refusing to overwrite. Fix or remove it, then retry."@,
                ),
            }
        },
    }
}

/// What merging came to.
pub struct Merged {
    /// What is written to the file.
    pub content: String,
    pub warnings: Vec<String>,
}

fn refused(path: &str, why: &str) -> (r: String)
    ensures
        r@ == "Existing .mcp.json at "@ + path@ + why@,
{
    let mut out = own("Existing .mcp.json at ");
    out.append(path);
    out.append(why);
    out
}

fn shipped_servers(embedded: &str) -> (r: Result<
    serde_json::Map<String, serde_json::Value>,
    String,
>)
    ensures
        match r {
            Ok(m) => shipped(embedded@) == Ok::<Map<Seq<char>, Json>, Seq<char>>(
                json_object::entries(m),
            ),
            Err(e) => shipped(embedded@) == Err::<Map<Seq<char>, Json>, Seq<char>>(e@),
        },
{
    match parse_object(embedded) {
        Err(_) => Err(own("embedded MCP_JSON is not valid JSON — this is a build defect")),
        Ok(None) => Err(
            own("embedded MCP_JSON missing mcpServers object — this is a build defect"),
        ),
        Ok(Some(config)) => {
            let mut config = config;
            match take_object(&mut config, SERVERS) {
                Taken::Object(m) => Ok(m),
                _ => Err(
                    own("embedded MCP_JSON missing mcpServers object — this is a build defect"),
                ),
            }
        },
    }
}

/// Puts the shipped servers into the configuration that is there, or into a new one.
/// Other servers and other settings stay. A configuration that is not understood is
/// left alone.
pub fn write_mcp_json_merged(path: &str, embedded: &str, read: &FileRead) -> (r: Result<
    Merged,
    String,
>)
    ensures
        match (shipped(embedded@), existing(path@, *read)) {
            (Err(e), _) => r matches Err(m) && m@ == e,
            (Ok(_), Err(e)) => r matches Err(m) && m@ == e,
            (Ok(servers), Ok(config)) => r matches Ok(m) && {
                &&& m.content@ == json_object::json_object_text(merged(config, servers)) + "\n"@
                &&& warns_of(text::strs(m.warnings@), servers, servers_of(config)->0)
            },
        },
{
    let servers = match shipped_servers(embedded) {
        Ok(m) => m,
        Err(e) => {
            return Err(e);
        },
    };
    let mut config = match read {
        FileRead::Missing => empty_object(),
        FileRead::Unreadable => {
            return Err(own("Failed to read existing .mcp.json"));
        },
        FileRead::Content(raw) => match parse_object(raw.as_str()) {
            Ok(Some(m)) => m,
            Ok(None) => {
                return Err(
                    refused(
                        path,
                        " is not a JSON object — refusing to overwrite. Fix or remove it, then retry.",
                    ),
                );
            },
            Err(_) => {
                return Err(
                    refused(
                        path,
                        " contains invalid JSON — refusing to overwrite. Fix or remove it, then retry.",
                    ),
                );
            },
        },
    };
    let ghost whole = json_object::entries(config);
    let mut there = match take_object(&mut config, SERVERS) {
        Taken::Object(m) => m,
        Taken::Absent => empty_object(),
        Taken::Other => {
            return Err(
                own(
                    "Existing .mcp.json has a non-object mcpServers value — refusing to overwrite. Fix or remove it, then retry.",
                ),
            );
        },
    };
    let ghost had = json_object::entries(there);
    assert(servers_of(whole) == Some(had));
    let keys = keys_of(&servers);
    let ghost names = text::strs(keys@);
    let mut said: Vec<String> = Vec::new();
    assert(text::strs(said@) =~= warnings(names, had, 0));
    let mut i: usize = 0;
    while i < keys.len()
        invariant
            i <= keys@.len(),
            names == text::strs(keys@),
            json_object::is_key_list(names, json_object::entries(servers)),
            text::strs(said@) == warnings(names, had, i as nat),
            forall|k: Seq<char>|
                #![trigger json_object::entries(there).dom().contains(k)]
                json_object::entries(there).dom().contains(k) <==> had.dom().contains(k) || exists|
                    j: int,
                |
                    0 <= j < i && #[trigger] names[j] == k,
            forall|k: Seq<char>|
                #![trigger json_object::entries(there)[k]]
                json_object::entries(there).dom().contains(k) ==> json_object::entries(there)[k]
                    == (if exists|j: int| 0 <= j < i && #[trigger] names[j] == k {
                    json_object::entries(servers)[k]
                } else {
                    had[k]
                }),
        decreases keys@.len() - i,
    {
        let key = keys[i].as_str();
        assert(names[i as int] == key@);
        assert(json_object::entries(servers).contains_key(names[i as int]));
        let ghost earlier = json_object::entries(there);
        if has_key(&there, key) {
            let mut line = own("Warning: overwriting existing mcpServers entry \"");
            line.append(key);
            line.append("\" with crosslink default");
            proof {
                text::lemma_strs_push(said@, line);
                assert(earlier.dom().contains(key@));
            }
            said.push(line);
        } else {
            assert(!earlier.dom().contains(key@));
        }
        copy_value(&mut there, &servers, key);
        proof {
            let now = json_object::entries(there);
            assert forall|k: Seq<char>|
                #![trigger now.dom().contains(k)]
                now.dom().contains(k) <==> had.dom().contains(k) || exists|j: int|
                    0 <= j < i + 1 && #[trigger] names[j] == k by {
                assert(earlier.dom().contains(k) || k == key@ <==> now.dom().contains(k));
                assert(names[i as int] == key@);
            }
            assert forall|k: Seq<char>| #![trigger now[k]] now.dom().contains(k) implies now[k] == (
            if exists|j: int| 0 <= j < i + 1 && #[trigger] names[j] == k {
                json_object::entries(servers)[k]
            } else {
                had[k]
            }) by {
                if k == key@ {
                    assert(names[i as int] == k);
                } else {
                    assert(now[k] == earlier[k]);
                    assert(earlier.dom().contains(k));
                }
            }
        }
        i = i + 1;
    }
    proof {
        let now = json_object::entries(there);
        let source = json_object::entries(servers);
        let all = had.union_prefer_right(source);
        assert forall|k: Seq<char>|
            #![trigger now.dom().contains(k)]
            #![trigger all.dom().contains(k)]
            now.dom().contains(k) == all.dom().contains(k) && (now.dom().contains(k) ==> now[k]
                == all[k]) by {
            if source.contains_key(k) {
                assert(names.contains(k));
                let j = choose|j: int| 0 <= j < names.len() && names[j] == k;
                assert(names[j] == k);
            }
            if exists|j: int| 0 <= j < i && #[trigger] names[j] == k {
                let j = choose|j: int| 0 <= j < i && #[trigger] names[j] == k;
                assert(source.contains_key(names[j]));
            }
        }
        assert(now =~= all);
    }
    put_value(&mut config, SERVERS, make_value(Parts::Object(there)));
    proof {
        assert(json_object::entries(config) =~= merged(whole, json_object::entries(servers)));
    }
    let mut content = print_object(config);
    content.append("\n");
    proof {
        let source = json_object::entries(servers);
        assert(existing(path@, *read) == Ok::<Map<Seq<char>, Json>, Seq<char>>(whole));
        assert(shipped(embedded@) == Ok::<Map<Seq<char>, Json>, Seq<char>>(source));
        assert(json_object::is_key_list(names, source));
        assert(names.len() == i);
        assert(warns_of(text::strs(said@), source, had));
    }
    Ok(Merged { content, warnings: said })
}

/// Merging keeps every other setting and every other server, and puts the shipped ones
/// in as they are.
pub proof fn law_merge_keeps_the_rest(
    config: Map<Seq<char>, Json>,
    servers: Map<Seq<char>, Json>,
    key: Seq<char>,
)
    requires
        servers_of(config) is Some,
    ensures
        key != SERVERS@ ==> merged(config, servers).contains_key(key) == config.contains_key(key),
        key != SERVERS@ && config.contains_key(key) ==> merged(config, servers)[key] == config[key],
        servers_of(merged(config, servers)) is Some,
        servers.contains_key(key) ==> servers_of(merged(config, servers))->0.contains_key(key)
            && servers_of(merged(config, servers))->0[key] == servers[key],
        !servers.contains_key(key) ==> servers_of(merged(config, servers))->0.contains_key(key)
            == servers_of(config)->0.contains_key(key),
        !servers.contains_key(key) && servers_of(config)->0.contains_key(key) ==> servers_of(
            merged(config, servers),
        )->0[key] == servers_of(config)->0[key],
{
}

/// Merging a second time changes nothing.
pub proof fn law_merge_is_idempotent(config: Map<Seq<char>, Json>, servers: Map<Seq<char>, Json>)
    requires
        servers_of(config) is Some,
    ensures
        merged(merged(config, servers), servers) == merged(config, servers),
{
    let once = merged(config, servers);
    let m = servers_of(config)->0.union_prefer_right(servers);
    assert(servers_of(once) == Some(m));
    assert(m.union_prefer_right(servers) =~= m);
    assert(merged(once, servers) =~= once);
}

/// A server that is overwritten is named.
pub proof fn law_overwritten_servers_are_named(
    keys: Seq<Seq<char>>,
    there: Map<Seq<char>, Json>,
    n: nat,
    k: int,
)
    requires
        n <= keys.len(),
    ensures
        0 <= k < n && there.contains_key(keys[k]) ==> warnings(keys, there, n).contains(
            overwriting(keys[k]),
        ) && text::contains(overwriting(keys[k]), keys[k]),
        (forall|i: int| 0 <= i < n ==> !there.contains_key(#[trigger] keys[i])) ==> warnings(
            keys,
            there,
            n,
        ).len() == 0,
        (forall|i: int| 0 <= i < n ==> there.contains_key(#[trigger] keys[i])) ==> warnings(
            keys,
            there,
            n,
        ).len() == n,
    decreases n,
{
    broadcast use {
        text::lemma_contains_self,
        text::lemma_contains_first,
        text::lemma_contains_second,
    };

    if n > 0 {
        law_overwritten_servers_are_named(keys, there, (n - 1) as nat, k);
        let before = warnings(keys, there, (n - 1) as nat);
        let all = warnings(keys, there, n);
        if 0 <= k < n && there.contains_key(keys[k]) {
            if k == n - 1 {
                assert(all.last() == overwriting(keys[k]));
            } else {
                let i = choose|i: int| 0 <= i < before.len() && before[i] == overwriting(keys[k]);
                assert(all[i] == overwriting(keys[k]));
            }
        }
    }
}

/// A file is only written where it is missing, or is an object whose servers, if it has any, are
/// one too. What is there is kept to put the servers into; what is refused is told.
pub proof fn law_only_understood_files_are_written(
    path: &str,
    embedded: &str,
    read: &FileRead,
    r: Result<Merged, String>,
)
    requires
        call_ensures(write_mcp_json_merged, (path, embedded, read), r),
    ensures
        r is Ok <==> shipped(embedded@) is Ok && match *read {
            FileRead::Missing => true,
            FileRead::Unreadable => false,
            FileRead::Content(raw) => json_object::json_error(raw@) is None && (
            json_object::json_object(raw@) matches Some(config) && (config.contains_key(
                "mcpServers"@,
            ) ==> config["mcpServers"@] is Object)),
        },
        shipped(embedded@) is Ok && *read is Missing ==> (r matches Ok(m) && m.content@
            == json_object::json_object_text(
            merged(Map::empty(), shipped(embedded@)->Ok_0),
        ) + "\n"@),
        shipped(embedded@) is Ok <==> json_object::json_error(embedded@) is None && (
        json_object::json_object(embedded@) matches Some(config) && config.contains_key(
            "mcpServers"@,
        ) && config["mcpServers"@] is Object),
{
}

} // verus!
