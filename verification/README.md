# gnos

gnos is a web based network management system. Modelers running on the
network's client poll the devices and PUT what they find as JSON; the server
keeps it in RDF triple stores, draws charts of the samples with R, and pushes
the results of the clients' queries as server-sent events.

This crate is the verified core of the server, written with Verus:

- `src/` is the library. It turns the modelers' JSON into ordered updates
  of a store (`statements`, `handlers::put_snmp`, `views::put_snmp`), decides
  when alerts open and close (`model`), keeps ring buffers of samples and
  writes the R scripts of charts (`ring_buffer`, `samples`), handles units of
  measure (`units`), reads the command line and network file (`options`),
  drives the query streams (`handlers::sse_query`), and builds the demo
  store (`demo`). Each public function states its result in its contract.
- `app/` is the program around it: threads and channels, the triple store
  (rrdf) and web server (rwebserve), processes (ssh, scp, Rscript), files,
  and the floating point work on samples.
- `tests/` runs the library on concrete values.
