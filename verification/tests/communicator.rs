use exercises::client;
use exercises::network;
use exercises::outermost;
use exercises::try_me;

#[test]
fn it_works() {
    client::connect();
    network::connect();
}

#[test]
fn public_function_is_in_reach() {
    outermost::middle_function();
    try_me();
}
