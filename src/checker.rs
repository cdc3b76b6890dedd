use vstd::prelude::*;

use crate::config::Config;
use crate::text::{decimal, decimal_string, dots_as_dashes, dots_to_dashes, parse_u64, parsed_u64};
use crate::walk::{probe_verdict, ProbeAction};
use crate::xml::{nodes_model, parse_xml_nodes, xml_nodes_of, NodeModel, XmlNode};

verus! {

/// Why the library listing gave no list of ids.
#[derive(Clone, Copy, Debug, PartialEq, Eq, Structural)]
pub enum ListingError {
    /// The request did not complete.
    Unreachable,
    /// The server answered with a status other than 200.
    Status,
    /// The body of the answer could not be read.
    Unreadable,
    /// The body is not a well-formed XML document.
    MalformedXml,
    /// A `Directory` element lacks its `key` or its `title`.
    MissingAttribute,
    /// The `key` of a checked library is not an unsigned integer.
    InvalidKey,
}

/// The ids of the libraries named in `libs`, read from the nodes of a
/// listing in document order. Every `Directory` element must carry both a
/// `key` and a `title`; the key of each one whose title is in `libs` must read
/// as an unsigned integer.
pub open spec fn directory_ids(nodes: Seq<NodeModel>, libs: Seq<Seq<char>>) -> Result<
    Seq<u64>,
    ListingError,
>
    decreases nodes.len(),
{
    if nodes.len() == 0 {
        Ok(Seq::empty())
    } else {
        match directory_ids(nodes.drop_last(), libs) {
            Err(e) => Err(e),
            Ok(ids) => {
                let n = nodes.last();
                if n.0 != "Directory"@ {
                    Ok(ids)
                } else if n.1 is None || n.2 is None {
                    Err(ListingError::MissingAttribute)
                } else if !libs.contains(n.2->0) {
                    Ok(ids)
                } else {
                    match parsed_u64(n.1->0) {
                        Some(k) => Ok(ids.push(k)),
                        None => Err(ListingError::InvalidKey),
                    }
                }
            },
        }
    }
}

pub open spec fn str_opt_view(b: Option<&str>) -> Option<Seq<char>> {
    match b {
        Some(t) => Some(t@),
        None => None,
    }
}

/// Once a prefix of the nodes fails, the whole listing fails the same way.
pub proof fn lemma_directory_error_persists(nodes: Seq<NodeModel>, libs: Seq<Seq<char>>, i: int)
    requires
        0 <= i <= nodes.len(),
        directory_ids(nodes.subrange(0, i), libs) is Err,
    ensures
        directory_ids(nodes, libs) == directory_ids(nodes.subrange(0, i), libs),
    decreases nodes.len(),
{
    if i < nodes.len() {
        assert(nodes.drop_last().subrange(0, i) =~= nodes.subrange(0, i));
        lemma_directory_error_persists(nodes.drop_last(), libs, i);
    } else {
        assert(nodes.subrange(0, i) =~= nodes);
    }
}

/// The server's base URL: scheme, the resolved address with dashes for
/// dots, the certificate id, the `plex.direct` domain, the port and a
/// trailing slash.
pub open spec fn base_url_of(ssl: bool, ip: Seq<char>, certificate: Seq<char>, port: u16) -> Seq<
    char,
> {
    (if ssl {
        "https://"@
    } else {
        "http://"@
    }) + dots_to_dashes(ip) + "."@ + certificate + "."@ + "plex.direct"@ + ":"@ + decimal(
        port as nat,
    ) + "/"@
}

/// Reaches one Plex server with one token and knows which libraries to check.
pub struct PlexChecker {
    pub base_url: String,
    pub plex_token: String,
    pub libraries_to_check: Vec<String>,
}

impl PlexChecker {
    pub open spec fn library_names(&self) -> Seq<Seq<char>> {
        self.libraries_to_check.deep_view()
    }

    pub open spec fn base_index_url_spec(&self) -> Seq<char> {
        self.base_url@ + "?X-Plex-Token="@ + self.plex_token@
    }

    pub open spec fn libraries_list_url_spec(&self) -> Seq<char> {
        self.base_url@ + "library/sections/"@ + "?X-Plex-Token="@ + self.plex_token@
    }

    pub open spec fn library_all_url_spec(&self, id: u64) -> Seq<char> {
        self.base_url@ + "library/sections/"@ + decimal(id as nat) + "/all?X-Plex-Token="@
            + self.plex_token@
    }

    /// What the library listing yields, given the answer's status (`None`
    /// where the request failed) and its body (`None` where it could not be
    /// read).
    pub open spec fn listing_outcome(&self, status: Option<u16>, body: Option<Seq<char>>) -> Result<
        Seq<u64>,
        ListingError,
    > {
        if status is None {
            Err(ListingError::Unreachable)
        } else if status != Some(200u16) {
            Err(ListingError::Status)
        } else if body is None {
            Err(ListingError::Unreadable)
        } else {
            match xml_nodes_of(body->0, "key"@, "title"@) {
                None => Err(ListingError::MalformedXml),
                Some(nodes) => directory_ids(nodes, self.library_names()),
            }
        }
    }

    /// The first resolved address of the server's domain, with dashes for
    /// dots; `None` where the domain resolved to nothing.
    pub fn get_ip_from_domain(resolved: &Vec<String>) -> (r: Option<String>)
        ensures
            r is None <==> resolved@.len() == 0,
            r is Some ==> r->0@ == dots_to_dashes(resolved@[0]@),
    {
        if resolved.len() == 0 {
            None
        } else {
            Some(dots_as_dashes(resolved[0].as_str()))
        }
    }

    /// The base URL of the server named by `config`, whose domain resolved
    /// to the addresses `resolved`; `None` where it resolved to none.
    pub fn get_base_plex_url(config: &Config, resolved: &Vec<String>) -> (r: Option<String>)
        ensures
            r is None <==> resolved@.len() == 0,
            r is Some ==> r->0@ == base_url_of(
                config.plex.ssl,
                resolved@[0]@,
                config.plex.certificate_uuid@,
                config.plex.port,
            ),
    {
        let ip = match Self::get_ip_from_domain(resolved) {
            Some(ip) => ip,
            None => return None,
        };
        let mut url = if config.plex.ssl {
            String::from_str("https://")
        } else {
            String::from_str("http://")
        };
        url.append(ip.as_str());
        url.append(".");
        url.append(config.plex.certificate_uuid.as_str());
        url.append(".");
        url.append("plex.direct");
        url.append(":");
        let port = decimal_string(config.plex.port as u64);
        url.append(port.as_str());
        url.append("/");
        Some(url)
    }

    /// The checker for the server of `config`, whose domain resolved to
    /// `resolved`; `None` where it resolved to no address.
    pub fn new(config: &Config, resolved: &Vec<String>) -> (r: Option<PlexChecker>)
        ensures
            r is None <==> resolved@.len() == 0,
            r is Some ==> ({
                let c = r->0;
                &&& c.base_url@ == base_url_of(
                    config.plex.ssl,
                    resolved@[0]@,
                    config.plex.certificate_uuid@,
                    config.plex.port,
                )
                &&& c.plex_token@ == config.plex.plex_token@
                &&& c.library_names() == config.plex.libraries.deep_view()
            }),
    {
        let base_url = match Self::get_base_plex_url(config, resolved) {
            Some(u) => u,
            None => return None,
        };
        Some(PlexChecker {
            base_url,
            plex_token: config.plex.plex_token.clone(),
            libraries_to_check: config.plex.libraries.clone(),
        })
    }

    /// The URL whose answer tells whether the server is reachable with the
    /// token.
    pub fn base_index_url(&self) -> (r: String)
        ensures
            r@ == self.base_index_url_spec(),
    {
        let mut url = self.base_url.clone();
        url.append("?X-Plex-Token=");
        url.append(self.plex_token.as_str());
        url
    }

    /// The URL of the listing of the server's libraries.
    pub fn libraries_list_url(&self) -> (r: String)
        ensures
            r@ == self.libraries_list_url_spec(),
    {
        let mut url = self.base_url.clone();
        url.append("library/sections/");
        url.append("?X-Plex-Token=");
        url.append(self.plex_token.as_str());
        url
    }

    /// The URL of the contents of the library `id`.
    pub fn library_all_url(&self, id: u64) -> (r: String)
        ensures
            r@ == self.library_all_url_spec(id),
    {
        let mut url = self.base_url.clone();
        url.append("library/sections/");
        let digits = decimal_string(id);
        url.append(digits.as_str());
        url.append("/all?X-Plex-Token=");
        url.append(self.plex_token.as_str());
        url
    }

    /// Whether the base URL answered as a live, authorized server: a
    /// response arrived (`Some`) with status 200.
    pub fn check_base_index_status(status: Option<u16>) -> (r: bool)
        ensures
            r == (status == Some(200u16)),
    {
        match status {
            Some(s) => s == 200,
            None => false,
        }
    }

    /// Whether `name` is one of the libraries to check.
    pub fn checks_library(&self, name: &String) -> (r: bool)
        ensures
            r == self.library_names().contains(name@),
    {
        let mut i: usize = 0;
        while i < self.libraries_to_check.len()
            invariant
                i <= self.libraries_to_check@.len(),
                forall|j: int| 0 <= j < i ==> self.library_names()[j] != name@,
            decreases self.libraries_to_check@.len() - i,
        {
            if self.libraries_to_check[i] == *name {
                assert(self.library_names()[i as int] == name@);
                return true;
            }
            i = i + 1;
        }
        false
    }

    /// The ids of the checked libraries among the nodes of a parsed listing.
    pub fn library_ids_from_nodes(&self, nodes: &Vec<XmlNode>) -> (r: Result<Vec<u64>, ListingError>)
        ensures
            match r {
                Ok(ids) => directory_ids(nodes_model(nodes@), self.library_names()) == Ok::<
                    Seq<u64>,
                    ListingError,
                >(ids@),
                Err(e) => directory_ids(nodes_model(nodes@), self.library_names()) == Err::<
                    Seq<u64>,
                    ListingError,
                >(e),
            },
    {
        let directory_tag = String::from_str("Directory");
        let mut ids: Vec<u64> = Vec::new();
        let mut i: usize = 0;
        while i < nodes.len()
            invariant
                i <= nodes@.len(),
                directory_tag@ == "Directory"@,
                directory_ids(nodes_model(nodes@).subrange(0, i as int), self.library_names())
                    == Ok::<Seq<u64>, ListingError>(ids@),
            decreases nodes@.len() - i,
        {
            let ghost pre = nodes_model(nodes@).subrange(0, i as int);
            let ghost cur = nodes_model(nodes@).subrange(0, i + 1);
            assert(cur.drop_last() =~= pre);
            assert(cur.last() == nodes@[i as int].model());
            let node = &nodes[i];
            if node.tag == directory_tag {
                match (&node.key, &node.title) {
                    (Some(key), Some(title)) => {
                        if self.checks_library(title) {
                            match parse_u64(key.as_str()) {
                                Some(k) => ids.push(k),
                                None => {
                                    proof {
                                        lemma_directory_error_persists(
                                            nodes_model(nodes@),
                                            self.library_names(),
                                            i + 1,
                                        );
                                    }
                                    return Err(ListingError::InvalidKey);
                                },
                            }
                        }
                    },
                    _ => {
                        proof {
                            lemma_directory_error_persists(
                                nodes_model(nodes@),
                                self.library_names(),
                                i + 1,
                            );
                        }
                        return Err(ListingError::MissingAttribute);
                    },
                }
            }
            i = i + 1;
        }
        assert(nodes_model(nodes@).subrange(0, nodes@.len() as int) =~= nodes_model(nodes@));
        Ok(ids)
    }

    /// The ids of the checked libraries, from the answer to the listing
    /// request: its status (`None` where the request failed) and its body
    /// (`None` where it could not be read).
    pub fn list_libraries_ids(&self, status: Option<u16>, body: Option<&str>) -> (r: Result<
        Vec<u64>,
        ListingError,
    >)
        ensures
            match r {
                Ok(ids) => self.listing_outcome(status, str_opt_view(body)) == Ok::<
                    Seq<u64>,
                    ListingError,
                >(ids@),
                Err(e) => self.listing_outcome(status, str_opt_view(body)) == Err::<
                    Seq<u64>,
                    ListingError,
                >(e),
            },
    {
        if status.is_none() {
            return Err(ListingError::Unreachable);
        }
        if !Self::check_base_index_status(status) {
            return Err(ListingError::Status);
        }
        let text = match body {
            Some(t) => t,
            None => return Err(ListingError::Unreadable),
        };
        match parse_xml_nodes(text, "key", "title") {
            None => Err(ListingError::MalformedXml),
            Some(nodes) => self.library_ids_from_nodes(&nodes),
        }
    }
}

} // verus!

verus! {

/// A `Directory` element without its `key` or its `title` makes the whole
/// listing fail, whatever the other elements hold.
pub proof fn lemma_missing_attribute_fails(nodes: Seq<NodeModel>, libs: Seq<Seq<char>>, i: int)
    requires
        0 <= i < nodes.len(),
        nodes[i].0 == "Directory"@,
        nodes[i].1 is None || nodes[i].2 is None,
    ensures
        directory_ids(nodes, libs) is Err,
{
    let prefix = nodes.subrange(0, i + 1);
    assert(prefix.drop_last() =~= nodes.subrange(0, i));
    assert(prefix.last() == nodes[i]);
    lemma_directory_error_persists(nodes, libs, i + 1);
}

/// A configured library that no `Directory` element of the listing names
/// changes nothing: the ids are those found without it.
pub proof fn lemma_unlisted_library_ignored(
    nodes: Seq<NodeModel>,
    libs: Seq<Seq<char>>,
    title: Seq<char>,
)
    requires
        forall|i: int| 0 <= i < nodes.len() && nodes[i].0 == "Directory"@ ==> nodes[i].2 != Some(
            title,
        ),
    ensures
        directory_ids(nodes, libs.push(title)) == directory_ids(nodes, libs),
    decreases nodes.len(),
{
    if nodes.len() > 0 {
        let rest = nodes.drop_last();
        assert forall|i: int| 0 <= i < rest.len() && rest[i].0 == "Directory"@ implies rest[i].2
            != Some(title) by {
            assert(rest[i] == nodes[i]);
        }
        lemma_unlisted_library_ignored(rest, libs, title);
        let n = nodes.last();
        assert(n == nodes[nodes.len() - 1]);
        if n.0 == "Directory"@ && n.2 is Some {
            let t = n.2->0;
            if libs.contains(t) {
                let j = choose|j: int| 0 <= j < libs.len() && libs[j] == t;
                assert(libs.push(title)[j] == t);
            }
            if libs.push(title).contains(t) {
                let j = choose|j: int| 0 <= j < libs.push(title).len() && libs.push(title)[j] == t;
                assert(j < libs.len());
                assert(libs[j] == t);
            }
        }
    }
}

/// Where no `Directory` element names a checked library, and each carries
/// its `key` and `title`, no library id is found, no library is requested,
/// and the probe is `up` once the base request answered 200.
pub proof fn lemma_no_match_no_library_request(nodes: Seq<NodeModel>, libs: Seq<Seq<char>>)
    requires
        forall|i: int|
            0 <= i < nodes.len() && nodes[i].0 == "Directory"@ ==> nodes[i].1 is Some
                && nodes[i].2 is Some && !libs.contains(nodes[i].2->0),
    ensures
        directory_ids(nodes, libs) == Ok::<Seq<u64>, ListingError>(Seq::empty()),
        probe_verdict(Some(200u16), directory_ids(nodes, libs), Seq::empty())
            == ProbeAction::Finish(true),
    decreases nodes.len(),
{
    if nodes.len() > 0 {
        let rest = nodes.drop_last();
        assert forall|i: int|
            0 <= i < rest.len() && rest[i].0 == "Directory"@ implies rest[i].1 is Some
                && rest[i].2 is Some && !libs.contains(rest[i].2->0) by {
            assert(rest[i] == nodes[i]);
        }
        lemma_no_match_no_library_request(rest, libs);
        assert(nodes.last() == nodes[nodes.len() - 1]);
    }
}

} // verus!
