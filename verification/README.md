# ldap_handler

Serves the requests of an LDAP connection from a user directory: bind, search for users and
groups, whoami and unbind.

`src/` is the verified library. It decides what every request is answered with. Where an answer
needs the directory, the library says what to ask (`BindStep`, `SearchStep`, `MessageStep`) and
goes on with what came back.

- `text`: splitting and joining text.
- `dn`, `dn_laws`: distinguished names.
- `message`: the requests of clients and the messages for them.
- `domain`: users, groups and the conditions that the directory understands.
- `filter`: search filters, as conditions for the directory.
- `entry`: the entries of users and groups.
- `error`, `render`: what can be wrong with a request, and how a client is told.
- `step`: the decisions, as functions of the state, the request and the directory's answers.
- `handler`: the handler itself.
- `laws`, `search_laws`: what holds of the handler as a whole.
- `collect`: lists of outcomes.

`app/` connects the library with the `ldap3_proto` crate and with an asynchronous directory.
