//! Implicit messaging (class 0/1 IO connections): the state of each
//! connection, the table of open connections, and the Forward Open and
//! Forward Close exchanges that open and close them.

mod connection;
mod manager;
mod realtime;
mod table;

pub use connection::{
    is_next_slot, o2t_payload, parse_input, sat_add, ConnectionKey, InputData, IoConnection, IoConnectionConfig,
    IoConnectionView,
};
pub use manager::{
    allocate_ids, close_connection, opened_connection, sockaddr_fits, connection_manager_path, direction_params, first_item, forward_open_request,
    is_open_request, needs_large, next_u16, next_u32, o2t_destination, o2t_destination_spec, open_config_ok,
    open_connection, open_service, opened_from, opened_with_items, rpi_micros, ConnectionIds, OpenedConnection,
};
pub use realtime::RealtimeConfig;
pub use table::{
    conn_key, deadline_of, due_keys, has_key, lemma_receive_restarts_timeout, schedulable, send_is_due, timed_out,
    timed_out_keys,
    unique_keys, ConnectionTable,
};
