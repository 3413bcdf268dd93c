//! The server with a map from status to page: what it writes for a response.

use crate::pages::PageTable;
use crate::server::response::{formatted, Response, ResponseView};
use vstd::prelude::*;
use vstd::string::*;
use vstd::utf8::encode_utf8;

verus! {

/// The settings of the server: the protocol tag and the map from status to
/// the bytes that are written for it. They are set before serving begins.
#[derive(Debug, Clone)]
pub struct TcpServer {
    /// The protocol tag of the status line.
    pub type_http: String,
    /// The pages by status.
    pub map_code_page: PageTable,
}

/// The bytes that `v` is written as under the protocol tag `http`: its text,
/// then its binary data.
pub open spec fn rendered(http: Seq<char>, status_code: Seq<char>, v: ResponseView) -> Seq<u8> {
    encode_utf8(formatted(http, status_code, v)) + v.binary_data
}

/// The table that holds the pages `pages`, each under its status and written
/// with status 200; of two pages for one status the later one stays.
pub open spec fn table_of(http: Seq<char>, pages: Seq<(String, Response)>) -> Map<
    Seq<u8>,
    Seq<u8>,
>
    decreases pages.len(),
{
    if pages.len() == 0 {
        Map::empty()
    } else {
        table_of(http, pages.drop_last()).insert(
            encode_utf8(pages.last().0@),
            rendered(http, "200 OK"@, pages.last().1@),
        )
    }
}

impl TcpServer {
    /// Make a new server: HTTP/1.1, and no pages.
    pub fn new() -> (s: TcpServer)
        ensures
            s.type_http@ == "HTTP/1.1"@,
            s.map_code_page@ == Map::<Seq<u8>, Seq<u8>>::empty(),
    {
        TcpServer { type_http: String::from_str("HTTP/1.1"), map_code_page: PageTable::new() }
    }

    /// The bytes that `response` is written as, with `status_code` for its
    /// status.
    pub fn render(&self, status_code: &str, response: &Response) -> (r: Vec<u8>)
        ensures
            r@ == rendered(self.type_http@, status_code@, response@),
    {
        let form_arg = Response::format_arg(self.type_http.as_str(), status_code, response);
        let mut data = form_arg.as_str().as_bytes_vec();
        let mut binary = response.binary_data.clone();
        data.append(&mut binary);
        data
    }

    /// Set the map from status to page, in place of the one that was set.
    pub fn set_map_code_page(&mut self, map_code_page: Vec<(String, Response)>)
        ensures
            final(self).type_http == old(self).type_http,
            final(self).map_code_page@ == table_of(old(self).type_http@, map_code_page@),
    {
        let mut table = PageTable::new();
        let mut i: usize = 0;
        proof {
            assert(map_code_page@.take(0) =~= Seq::<(String, Response)>::empty());
        }
        while i < map_code_page.len()
            invariant
                i <= map_code_page.len(),
                table@ == table_of(self.type_http@, map_code_page@.take(i as int)),
            decreases map_code_page.len() - i,
        {
            let code = map_code_page[i].0.as_str().as_bytes_vec();
            let page = self.render("200 OK", &map_code_page[i].1);
            proof {
                let next = map_code_page@.take(i + 1);
                assert(next.drop_last() =~= map_code_page@.take(i as int));
                assert(next.last() == map_code_page@[i as int]);
            }
            table.register(code, page);
            i += 1;
        }
        proof {
            assert(map_code_page@.take(map_code_page.len() as int) =~= map_code_page@);
        }
        self.map_code_page = table;
    }

    /// Set the protocol tag.
    pub fn set_http(&mut self, http: &str)
        ensures
            final(self).type_http@ == http@,
            final(self).map_code_page == old(self).map_code_page,
    {
        self.type_http = String::from_str(http);
    }

    /// The bytes that are written for `response`: the page of its status,
    /// where the map holds one, whatever else the response holds; else the
    /// response itself.
    pub fn write_stream(&self, response: &Response) -> (r: Vec<u8>)
        ensures
            r@ == if self.map_code_page@.dom().contains(encode_utf8(response@.status_code)) {
                self.map_code_page@[encode_utf8(response@.status_code)]
            } else {
                rendered(self.type_http@, response@.status_code, response@)
            },
    {
        match self.map_code_page.lookup(response.status_code.as_str().as_bytes()) {
            Some(data) => data.clone(),
            None => self.render(response.status_code.as_str(), response),
        }
    }
}

/// The notices of a working server.
pub struct PrintInfoServer;

impl PrintInfoServer {
    /// The notice that the server at `addr` has started.
    pub fn server_launch(addr: &str) -> (s: String)
        ensures
            s@ == "SERVER | "@ + addr@ + " | LAUNCH "@,
    {
        let mut s = String::from_str("SERVER | ");
        s.append(addr);
        s.append(" | LAUNCH ");
        s
    }

    /// The notice that the server at `addr` has shut down.
    pub fn server_shotdown(addr: &str) -> (s: String)
        ensures
            s@ == "SERVER | "@ + addr@ + " | SHOT DOWN "@,
    {
        let mut s = String::from_str("SERVER | ");
        s.append(addr);
        s.append(" | SHOT DOWN ");
        s
    }
}

} // verus!
