//! Printing servers and their routes.

use vstd::prelude::*;
use crate::commands;
use crate::commands::{join_lines, pad_right};
use crate::server::{RegistrationRecord, ServerRecord};
use crate::text;
use crate::text::to_decimal;

verus! {

/// A row of the table of servers.
pub open spec fn server_row(
    name: Seq<char>,
    state: Seq<char>,
    host: Seq<char>,
    port: Seq<char>,
    address: Seq<char>,
) -> Seq<char> {
    commands::padded(name, 20) + " "@ + commands::padded(state, 9) + " "@ + commands::padded(
        host,
        16,
    ) + " "@ + commands::padded(port, 6) + " "@ + address
}

/// The row of a server.
pub open spec fn record_row(record: ServerRecord) -> Seq<char> {
    server_row(
        record.name@,
        record.state@,
        record.host@,
        text::decimal(record.port as nat),
        record.address@,
    )
}

fn make_server_row(name: &str, state: &str, host: &str, port: &str, address: &str) -> (r: String)
    ensures
        r@ == server_row(name@, state@, host@, port@, address@),
{
    pad_right(name, 20).concat(" ").concat(pad_right(state, 9).as_str()).concat(" ").concat(
        pad_right(host, 16).as_str(),
    ).concat(" ").concat(pad_right(port, 6).as_str()).concat(" ").concat(address)
}

/// Prints the table of servers.
pub fn write_server_list(records: &Vec<ServerRecord>) -> (r: String)
    ensures
        r@ == if records.len() == 0 {
            "no named servers found\n"@
        } else {
            commands::lines(
                seq![server_row("NAME"@, "STATE"@, "HOST"@, "PORT"@, "ADDRESS"@)]
                    + records@.map_values(|x: ServerRecord| record_row(x)),
            )
        },
{
    if records.len() == 0 {
        return "no named servers found\n".to_owned();
    }
    let ghost all = records@.map_values(|x: ServerRecord| record_row(x));
    let head = make_server_row("NAME", "STATE", "HOST", "PORT", "ADDRESS");
    let ghost first = seq![head@];
    let mut rows: Vec<String> = vec![head];
    let mut i: usize = 0;
    assert(rows.deep_view() =~= first + all.take(0));
    while i < records.len()
        invariant
            i <= records.len(),
            all == records@.map_values(|x: ServerRecord| record_row(x)),
            rows.deep_view() == first + all.take(i as int),
        decreases records.len() - i,
    {
        let record = &records[i];
        let row = make_server_row(
            record.name.as_str(),
            record.state.as_str(),
            record.host.as_str(),
            to_decimal(record.port as u128).as_str(),
            record.address.as_str(),
        );
        let ghost was = rows.deep_view();
        rows.push(row);
        i += 1;
        assert(rows.deep_view() =~= was.push(row@));
        assert(rows.deep_view() =~= first + all.take(i as int));
    }
    assert(all.take(all.len() as int) =~= all);
    join_lines(&rows)
}

/// Prints one server.
pub fn write_status(record: &ServerRecord) -> (r: String)
    ensures
        r@ == commands::lines(
            seq![
                "name:    "@ + record.name@,
                "state:   "@ + record.state@,
                "host:    "@ + record.host@,
                "port:    "@ + text::decimal(record.port as nat),
                "address: "@ + record.address@,
            ],
        ),
{
    let rows: Vec<String> = vec![
        "name:    ".to_owned().concat(record.name.as_str()),
        "state:   ".to_owned().concat(record.state.as_str()),
        "host:    ".to_owned().concat(record.host.as_str()),
        "port:    ".to_owned().concat(to_decimal(record.port as u128).as_str()),
        "address: ".to_owned().concat(record.address.as_str()),
    ];
    assert(rows.deep_view() =~= seq![
        "name:    "@ + record.name@,
        "state:   "@ + record.state@,
        "host:    "@ + record.host@,
        "port:    "@ + text::decimal(record.port as nat),
        "address: "@ + record.address@,
    ]);
    join_lines(&rows)
}

/// A row of the table of routes.
pub open spec fn route_row(id: Seq<char>, route: Seq<char>, readiness: Seq<char>) -> Seq<char> {
    commands::padded(id, 24) + " "@ + commands::padded(route, 28) + " "@ + readiness
}

/// The row of a route: a failure is shown beside its readiness.
pub open spec fn registration_row(record: RegistrationRecord) -> Seq<char> {
    route_row(
        record.id@,
        record.route@,
        match record.detail {
            Some(detail) => record.readiness@ + ": "@ + detail@,
            None => record.readiness@,
        },
    )
}

fn make_route_row(id: &str, route: &str, readiness: &str) -> (r: String)
    ensures
        r@ == route_row(id@, route@, readiness@),
{
    pad_right(id, 24).concat(" ").concat(pad_right(route, 28).as_str()).concat(" ").concat(
        readiness,
    )
}

/// Prints the table of a server's routes.
pub fn write_registrations(name: &str, records: &Vec<RegistrationRecord>) -> (r: String)
    ensures
        r@ == if records.len() == 0 {
            "server \""@ + name@ + "\" has no registered agents\n"@
        } else {
            commands::lines(
                seq![route_row("AGENT"@, "ROUTE"@, "READINESS"@)] + records@.map_values(
                    |x: RegistrationRecord| registration_row(x),
                ),
            )
        },
{
    if records.len() == 0 {
        return "server \"".to_owned().concat(name).concat("\" has no registered agents\n");
    }
    let ghost all = records@.map_values(|x: RegistrationRecord| registration_row(x));
    let head = make_route_row("AGENT", "ROUTE", "READINESS");
    let ghost first = seq![head@];
    let mut rows: Vec<String> = vec![head];
    let mut i: usize = 0;
    assert(rows.deep_view() =~= first + all.take(0));
    while i < records.len()
        invariant
            i <= records.len(),
            all == records@.map_values(|x: RegistrationRecord| registration_row(x)),
            rows.deep_view() == first + all.take(i as int),
        decreases records.len() - i,
    {
        let record = &records[i];
        let readiness: String = match &record.detail {
            Some(detail) => record.readiness.clone().concat(": ").concat(detail.as_str()),
            None => record.readiness.clone(),
        };
        let row = make_route_row(record.id.as_str(), record.route.as_str(), readiness.as_str());
        let ghost was = rows.deep_view();
        rows.push(row);
        i += 1;
        assert(rows.deep_view() =~= was.push(row@));
        assert(rows.deep_view() =~= first + all.take(i as int));
    }
    assert(all.take(all.len() as int) =~= all);
    join_lines(&rows)
}

/// Where a server's texts fit, they stand in columns that begin at fixed places, in the order of
/// name, state, host, port and address.
pub proof fn law_server_rows_have_fixed_columns(record: ServerRecord)
    requires
        record.name@.len() <= 20,
        record.state@.len() <= 9,
        record.host@.len() <= 16,
        text::decimal(record.port as nat).len() <= 6,
    ensures
        ({
            let row = record_row(record);
            let port = text::decimal(record.port as nat);
            &&& row.subrange(0, record.name@.len() as int) == record.name@
            &&& row.subrange(21, 21int + record.state@.len()) == record.state@
            &&& row.subrange(31, 31int + record.host@.len()) == record.host@
            &&& row.subrange(48, 48int + port.len()) == port
            &&& row.skip(55) == record.address@
        }),
{
    reveal_strlit(" ");
    let row = record_row(record);
    let port = text::decimal(record.port as nat);
    assert(row.subrange(0, record.name@.len() as int) =~= record.name@);
    assert(row.subrange(21, 21int + record.state@.len()) =~= record.state@);
    assert(row.subrange(31, 31int + record.host@.len()) =~= record.host@);
    assert(row.subrange(48, 48int + port.len()) =~= port);
    assert(row.skip(55) =~= record.address@);
}

/// No text of a row is cut, however long it is.
pub proof fn law_server_rows_hold_long_texts(
    name: Seq<char>,
    state: Seq<char>,
    host: Seq<char>,
    port: Seq<char>,
    address: Seq<char>,
)
    ensures
        name.is_prefix_of(server_row(name, state, host, port, address)),
        address.is_suffix_of(server_row(name, state, host, port, address)),
        server_row(name, state, host, port, address).len() >= name.len() + state.len() + host.len()
            + port.len() + address.len() + 4,
{
    reveal_strlit(" ");
    let row = server_row(name, state, host, port, address);
    assert(row.take(name.len() as int) =~= name);
    assert(row.skip(row.len() - address.len()) =~= address);
}

/// Where a route's texts fit, they stand in columns that begin at fixed places: agent, route, and
/// how ready it is, with what is the matter behind it.
pub proof fn law_route_rows_have_fixed_columns(record: RegistrationRecord)
    requires
        record.id@.len() <= 24,
        record.route@.len() <= 28,
    ensures
        ({
            let row = registration_row(record);
            &&& row.subrange(0, record.id@.len() as int) == record.id@
            &&& row.subrange(25, 25int + record.route@.len()) == record.route@
            &&& row.subrange(54, 54int + record.readiness@.len()) == record.readiness@
            &&& record.detail is None ==> row.len() == 54 + record.readiness@.len()
            &&& record.detail matches Some(detail) ==> row.skip(54int + record.readiness@.len())
                == ": "@ + detail@
        }),
{
    reveal_strlit(" ");
    reveal_strlit(": ");
    let row = registration_row(record);
    assert(row.subrange(0, record.id@.len() as int) =~= record.id@);
    assert(row.subrange(25, 25int + record.route@.len()) =~= record.route@);
    assert(row.subrange(54, 54int + record.readiness@.len()) =~= record.readiness@);
    if record.detail is Some {
        assert(row.skip(54int + record.readiness@.len()) =~= ": "@ + record.detail->Some_0@);
    }
}

/// A list begins with its headings and has a line for every record, in their order; without records
/// it says so.
pub proof fn law_every_record_has_a_line(records: &Vec<ServerRecord>, r: String, i: int)
    requires
        call_ensures(write_server_list, (records,), r),
    ensures
        0 <= i < records.len() ==> exists|before: Seq<char>, after: Seq<char>|
            r@ == #[trigger] (before + record_row(records@[i]).push('\n') + after),
        records.len() == 0 ==> r@ == "no named servers found\n"@,
{
    if 0 <= i < records.len() {
        let rows = records@.map_values(|x: ServerRecord| record_row(x));
        let all = seq![server_row("NAME"@, "STATE"@, "HOST"@, "PORT"@, "ADDRESS"@)] + rows;
        lemma_line_of(all, i + 1);
        assert(all[i + 1] == record_row(records@[i]));
        let before = commands::lines(all.take(i + 1));
        let after = commands::lines(all.skip(i + 2));
        assert(r@ == before + record_row(records@[i]).push('\n') + after);
    }
}

proof fn lemma_line_of(rows: Seq<Seq<char>>, i: int)
    requires
        0 <= i < rows.len(),
    ensures
        commands::lines(rows) == commands::lines(rows.take(i)) + rows[i].push('\n')
            + commands::lines(rows.skip(i + 1)),
{
    let head = rows.take(i);
    let tail = rows.skip(i + 1);
    commands::law_rows_are_printed_in_turn(head, seq![rows[i]], rows[i]);
    commands::law_rows_are_printed_in_turn(head + seq![rows[i]], tail, rows[i]);
    assert(head + seq![rows[i]] + tail =~= rows);
}

/// A list of routes has a line for every record, in their order; without records the server is said
/// to have none.
pub proof fn law_every_route_has_a_line(
    name: &str,
    records: &Vec<RegistrationRecord>,
    r: String,
    i: int,
)
    requires
        call_ensures(write_registrations, (name, records), r),
    ensures
        0 <= i < records.len() ==> exists|before: Seq<char>, after: Seq<char>|
            r@ == #[trigger] (before + registration_row(records@[i]).push('\n') + after),
        records.len() == 0 ==> r@ == "server \""@ + name@ + "\" has no registered agents\n"@,
{
    if 0 <= i < records.len() {
        let rows = records@.map_values(|x: RegistrationRecord| registration_row(x));
        let all = seq![route_row("AGENT"@, "ROUTE"@, "READINESS"@)] + rows;
        lemma_line_of(all, i + 1);
        assert(all[i + 1] == registration_row(records@[i]));
        let before = commands::lines(all.take(i + 1));
        let after = commands::lines(all.skip(i + 2));
        assert(r@ == before + registration_row(records@[i]).push('\n') + after);
    }
}

/// A status tells name, state, host, port and address, each on a line of its own.
pub proof fn law_statuses_have_five_lines(record: &ServerRecord, r: String)
    requires
        call_ensures(write_status, (record,), r),
    ensures
        r@ == ("name:    "@ + record.name@).push('\n') + ("state:   "@ + record.state@).push('\n')
            + ("host:    "@ + record.host@).push('\n') + ("port:    "@ + text::decimal(
            record.port as nat,
        )).push('\n') + ("address: "@ + record.address@).push('\n'),
{
    let a = "name:    "@ + record.name@;
    let b = "state:   "@ + record.state@;
    let c = "host:    "@ + record.host@;
    let d = "port:    "@ + text::decimal(record.port as nat);
    let e = "address: "@ + record.address@;
    commands::law_rows_are_printed_in_turn(seq![a], seq![b], a);
    commands::law_rows_are_printed_in_turn(seq![a, b], seq![c], b);
    commands::law_rows_are_printed_in_turn(seq![a, b, c], seq![d], c);
    commands::law_rows_are_printed_in_turn(seq![a, b, c, d], seq![e], d);
    commands::law_rows_are_printed_in_turn(Seq::empty(), Seq::empty(), e);
    assert(seq![a] + seq![b] =~= seq![a, b]);
    assert(seq![a, b] + seq![c] =~= seq![a, b, c]);
    assert(seq![a, b, c] + seq![d] =~= seq![a, b, c, d]);
    assert(seq![a, b, c, d] + seq![e] =~= seq![a, b, c, d, e]);
}

} // verus!
